//! The interface of a contract, as JSON: which texts the reader must not be given, and how the
//! others are read.

use crate::abi_type::{reader_stops, type_panics, MAX_CALLS};
use crate::json::{decode, decoded, find_closing_quote, literal_length};
use ethers::abi::Abi;
use vstd::prelude::*;
use vstd::slice::slice_subrange;
use vstd::utf8::encode_utf8;

verus! {

/// A contract's interface.
#[verifier::external_type_specification]
#[verifier::external_body]
pub struct ExAbi(ethers::abi::Abi);

/// What a value of the JSON text is to the reader.
#[derive(Clone, Copy, PartialEq, Eq, Structural, Debug)]
pub enum Role {
    /// The whole interface, an array of operations.
    Interface,
    /// A function, an event, an error, the constructor, or the fallback or receive function.
    Operation,
    /// The name of which of these an operation is.
    Tag,
    /// The inputs, outputs or components, an array of parameters.
    Params,
    /// A parameter, an object.
    Param,
    /// The name of a parameter's type.
    TypeName,
    /// Anything else, which the reader takes no type name from.
    Other,
}

/// Which parameters the reader takes from an operation, by its tag.
#[derive(Clone, Copy, PartialEq, Eq, Structural, Debug)]
pub enum Tag {
    /// Inputs and outputs.
    Function,
    /// Inputs alone.
    Inputs,
    /// None, or there is no text for a tag, or one of no operation, and the reader stops.
    Neither,
}

/// An object or array that a place in the text is inside of.
#[derive(Clone, Copy, PartialEq, Eq, Structural, Debug)]
pub struct Level {
    pub object: bool,
    pub role: Role,
    /// What the value behind the latest key of an object is.
    pub member: Role,
    /// Whether the next string of an object is a key, or that of an array its first element.
    pub at_key: bool,
}

/// What is known at a place in the text. `levels` are outermost first. The rest is of the current
/// operation: its tag, whether its latest key is that of its outputs, and whether its inputs and
/// its outputs hold a type name on which the reader panics.
pub struct Reading {
    pub levels: Seq<Level>,
    pub tag: Tag,
    pub in_outputs: bool,
    pub inputs_panic: bool,
    pub outputs_panic: bool,
}

/// What the elements of an array are. An operation may be an array too, of its tag and its fields.
pub open spec fn element_role(role: Role) -> Role {
    match role {
        Role::Interface => Role::Operation,
        Role::Operation => Role::Params,
        Role::Params => Role::Param,
        _ => Role::Other,
    }
}

/// What the value behind a key of an object is.
pub open spec fn member_role(role: Role, key: Seq<u8>) -> Role {
    if role == Role::Operation {
        if key == encode_utf8("type"@) {
            Role::Tag
        } else if key == encode_utf8("inputs"@) || key == encode_utf8("outputs"@) {
            Role::Params
        } else {
            Role::Other
        }
    } else if role == Role::Param {
        if key == encode_utf8("type"@) {
            Role::TypeName
        } else if key == encode_utf8("components"@) {
            Role::Params
        } else {
            Role::Other
        }
    } else {
        Role::Other
    }
}

/// Which parameters a tag stands for.
pub open spec fn tag_of(text: Seq<u8>) -> Tag {
    if text == encode_utf8("function"@) {
        Tag::Function
    } else if text == encode_utf8("event"@) || text == encode_utf8("error"@) || text == encode_utf8(
        "constructor"@,
    ) {
        Tag::Inputs
    } else {
        Tag::Neither
    }
}

impl Reading {
    /// What is known before the text.
    pub open spec fn start() -> Reading {
        Reading {
            levels: Seq::empty(),
            tag: Tag::Neither,
            in_outputs: false,
            inputs_panic: false,
            outputs_panic: false,
        }
    }

    /// What a value at this place is.
    pub open spec fn role(self) -> Role {
        if self.levels.len() == 0 {
            Role::Interface
        } else if self.levels.last().object {
            self.levels.last().member
        } else {
            element_role(self.levels.last().role)
        }
    }

    /// What is known inside an object or array that starts here.
    pub open spec fn opened(self, object: bool) -> Reading {
        let level = Level { object, role: self.role(), member: Role::Other, at_key: true };
        let levels = self.levels.push(level);
        if self.role() == Role::Operation {
            Reading { levels, ..Reading::start() }
        } else {
            Reading { levels, ..self }
        }
    }

    /// What is known behind an object or array that ends here.
    pub open spec fn closed(self) -> Reading {
        if self.levels.len() == 0 {
            self
        } else {
            Reading { levels: self.levels.drop_last(), ..self }
        }
    }

    /// Whether an operation ends here on which the reader panics.
    pub open spec fn panics(self) -> bool {
        &&& self.levels.len() > 0 && self.levels.last().role == Role::Operation
        &&& {
            ||| self.inputs_panic && self.tag != Tag::Neither
            ||| self.outputs_panic && self.tag == Tag::Function
        }
    }

    /// What is known once the innermost level is this.
    pub open spec fn within(self, level: Level) -> Reading {
        if self.levels.len() == 0 {
            self
        } else {
            Reading { levels: self.levels.update(self.levels.len() - 1, level), ..self }
        }
    }

    /// What is known behind a colon.
    pub open spec fn at_value(self) -> Reading {
        self.within(Level { at_key: false, ..self.levels.last() })
    }

    /// What is known behind a comma.
    pub open spec fn at_next(self) -> Reading {
        self.within(Level { at_key: self.levels.last().object, ..self.levels.last() })
    }

    /// What is known behind a string that stands for a text.
    pub open spec fn past(self, text: Seq<u8>) -> Reading {
        let level = self.levels.last();
        if self.levels.len() == 0 {
            self
        } else if level.object && level.at_key {
            let keyed = self.within(Level { member: member_role(level.role, text), ..level });
            if level.role == Role::Operation {
                Reading { in_outputs: text == encode_utf8("outputs"@), ..keyed }
            } else {
                keyed
            }
        } else if self.role() == Role::Tag || (level.role == Role::Operation && !level.object
            && level.at_key) {
            Reading { tag: tag_of(text), ..self }
        } else if self.role() == Role::TypeName && type_panics(text, MAX_CALLS as nat) {
            if self.in_outputs {
                Reading { outputs_panic: true, ..self }
            } else {
                Reading { inputs_panic: true, ..self }
            }
        } else {
            self
        }
    }
}

/// Whether the reader gets through a JSON text from `i` on, or stops at an error. The types of an
/// operation it reads when it has come to the operation's end.
pub open spec fn reads_through(text: Seq<u8>, i: int, known: Reading) -> bool
    decreases
            if i < text.len() {
                text.len() - i
            } else {
                0
            },
{
    if i >= text.len() {
        true
    } else if text[i] == 0x22 {
        let end = i + 1 + literal_length(text, i + 1);
        if end >= text.len() {
            true
        } else {
            match decoded(text.subrange(i + 1, end), 0) {
                Some(string) => reads_through(text, end + 1, known.past(string)),
                None => true,
            }
        }
    } else if text[i] == 0x7b || text[i] == 0x5b {
        reads_through(text, i + 1, known.opened(text[i] == 0x7b))
    } else if text[i] == 0x7d || text[i] == 0x5d {
        !known.panics() && reads_through(text, i + 1, known.closed())
    } else if text[i] == 0x3a {
        reads_through(text, i + 1, known.at_value())
    } else if text[i] == 0x2c {
        reads_through(text, i + 1, known.at_next())
    } else {
        reads_through(text, i + 1, known)
    }
}

/// Whether the reader can be given a text as a contract's interface: it reads it, or refuses it
/// with an error.
pub open spec fn abi_is_readable(json: Seq<char>) -> bool {
    reads_through(encode_utf8(json), 0, Reading::start())
}

fn is_text(bytes: &[u8], text: &str) -> (same: bool)
    ensures
        same == (bytes@ == encode_utf8(text@)),
{
    let other = text.as_bytes();
    if bytes.len() != other.len() {
        return false;
    }
    let mut i: usize = 0;
    while i < bytes.len()
        invariant
            i <= bytes@.len() == other@.len(),
            other@ == encode_utf8(text@),
            forall|j: int| 0 <= j < i ==> bytes@[j] == other@[j],
        decreases bytes.len() - i,
    {
        if bytes[i] != other[i] {
            return false;
        }
        i = i + 1;
    }
    assert(bytes@ =~= other@);
    true
}

fn role_of_element(role: Role) -> (element: Role)
    ensures
        element == element_role(role),
{
    match role {
        Role::Interface => Role::Operation,
        Role::Operation => Role::Params,
        Role::Params => Role::Param,
        _ => Role::Other,
    }
}

fn role_of_member(role: Role, key: &[u8]) -> (member: Role)
    ensures
        member == member_role(role, key@),
{
    match role {
        Role::Operation => if is_text(key, "type") {
            Role::Tag
        } else if is_text(key, "inputs") || is_text(key, "outputs") {
            Role::Params
        } else {
            Role::Other
        },
        Role::Param => if is_text(key, "type") {
            Role::TypeName
        } else if is_text(key, "components") {
            Role::Params
        } else {
            Role::Other
        },
        _ => Role::Other,
    }
}

fn read_tag(text: &[u8]) -> (tag: Tag)
    ensures
        tag == tag_of(text@),
{
    if is_text(text, "function") {
        Tag::Function
    } else if is_text(text, "event") || is_text(text, "error") || is_text(text, "constructor") {
        Tag::Inputs
    } else {
        Tag::Neither
    }
}

/// What is known at a place in the text, held.
struct Walk {
    levels: Vec<Level>,
    tag: Tag,
    in_outputs: bool,
    inputs_panic: bool,
    outputs_panic: bool,
}

impl View for Walk {
    type V = Reading;

    closed spec fn view(&self) -> Reading {
        Reading {
            levels: self.levels@,
            tag: self.tag,
            in_outputs: self.in_outputs,
            inputs_panic: self.inputs_panic,
            outputs_panic: self.outputs_panic,
        }
    }
}

impl Walk {
    fn new() -> (walk: Walk)
        ensures
            walk@ == Reading::start(),
    {
        Walk {
            levels: Vec::new(),
            tag: Tag::Neither,
            in_outputs: false,
            inputs_panic: false,
            outputs_panic: false,
        }
    }

    fn role(&self) -> (role: Role)
        ensures
            role == self@.role(),
    {
        if self.levels.len() == 0 {
            return Role::Interface;
        }
        let level: Level = self.levels[self.levels.len() - 1];
        if level.object {
            level.member
        } else {
            role_of_element(level.role)
        }
    }

    fn open(&mut self, object: bool)
        ensures
            final(self)@ == old(self)@.opened(object),
    {
        let role: Role = self.role();
        self.levels.push(Level { object, role, member: Role::Other, at_key: true });
        if role == Role::Operation {
            self.tag = Tag::Neither;
            self.in_outputs = false;
            self.inputs_panic = false;
            self.outputs_panic = false;
        }
    }

    fn panics(&self) -> (panics: bool)
        ensures
            panics == self@.panics(),
    {
        self.levels.len() > 0 && self.levels[self.levels.len() - 1].role == Role::Operation && ((
        self.inputs_panic && self.tag != Tag::Neither) || (self.outputs_panic && self.tag
            == Tag::Function))
    }

    fn close(&mut self)
        ensures
            final(self)@ == old(self)@.closed(),
    {
        let _ = self.levels.pop();
    }

    fn set_at_key(&mut self, at_next: bool)
        ensures
            final(self)@ == if at_next {
                old(self)@.at_next()
            } else {
                old(self)@.at_value()
            },
    {
        if self.levels.len() > 0 {
            let last: usize = self.levels.len() - 1;
            let level: Level = self.levels[last];
            self.levels.set(last, Level { at_key: at_next && level.object, ..level });
        }
    }

    fn pass(&mut self, text: &[u8])
        ensures
            final(self)@ == old(self)@.past(text@),
    {
        if self.levels.len() == 0 {
            return ;
        }
        let last: usize = self.levels.len() - 1;
        let level: Level = self.levels[last];
        if level.object && level.at_key {
            let member: Role = role_of_member(level.role, text);
            self.levels.set(last, Level { member, ..level });
            if level.role == Role::Operation {
                self.in_outputs = is_text(text, "outputs");
            }
            return ;
        }
        if level.role == Role::Operation && !level.object && level.at_key {
            self.tag = read_tag(text);
            return ;
        }
        match self.role() {
            Role::Tag => {
                self.tag = read_tag(text);
            },
            Role::TypeName => {
                if reader_stops(text, MAX_CALLS) {
                    if self.in_outputs {
                        self.outputs_panic = true;
                    } else {
                        self.inputs_panic = true;
                    }
                }
            },
            _ => {},
        }
    }
}

/// Whether the reader can be given a text as a contract's interface.
pub fn can_be_read(json: &str) -> (ok: bool)
    ensures
        ok == abi_is_readable(json@),
{
    let text = json.as_bytes();
    let mut i: usize = 0;
    let mut walk: Walk = Walk::new();
    while i < text.len()
        invariant
            i <= text@.len(),
            text@ == encode_utf8(json@),
            abi_is_readable(json@) == reads_through(text@, i as int, walk@),
        decreases text.len() - i,
    {
        let byte: u8 = text[i];
        if byte == 0x22 {
            let end: usize = find_closing_quote(text, i + 1);
            if end == text.len() {
                return true;
            }
            match decode(slice_subrange(text, i + 1, end)) {
                Some(string) => {
                    walk.pass(string.as_slice());
                },
                None => {
                    return true;
                },
            }
            i = end + 1;
        } else {
            if byte == 0x7b || byte == 0x5b {
                walk.open(byte == 0x7b);
            } else if byte == 0x7d || byte == 0x5d {
                if walk.panics() {
                    return false;
                }
                walk.close();
            } else if byte == 0x3a || byte == 0x2c {
                walk.set_at_key(byte == 0x2c);
            }
            i = i + 1;
        }
    }
    true
}

/// The interface that `serde_json` reads from a text, or the text of the error with which it
/// refuses it.
pub uninterp spec fn abi_of(json: Seq<char>) -> Result<Abi, Seq<char>>;

/// `serde_json::from_str` into `ethers::abi::Abi`, the error as its `Display` text. The result
/// depends on the text alone. It reads type names with `ethabi`'s reader, which panics on some:
/// texts in which it would come to one it must not be given.
#[verifier::external_body]
fn parse_abi(json: &str) -> (parsed: Result<Abi, String>)
    requires
        abi_is_readable(json@),
    ensures
        match parsed {
            Ok(abi) => abi_of(json@) == Ok::<Abi, Seq<char>>(abi),
            Err(e) => abi_of(json@) == Err::<Abi, Seq<char>>(e@),
        },
{
    serde_json::from_str(json).map_err(|e| e.to_string())
}

/// What is said of an interface that the reader must not be given.
pub open spec fn broken_type() -> Seq<char> {
    "the interface has a type that cannot be read"@
}

/// The interface that a text holds, or what is wrong with it.
pub open spec fn abi_in(json: Seq<char>) -> Result<Abi, Seq<char>> {
    if abi_is_readable(json) {
        abi_of(json)
    } else {
        Err(broken_type())
    }
}

/// The interface that a text holds, or what is wrong with it.
pub fn read_abi(json: &str) -> (abi: Result<Abi, String>)
    ensures
        match abi {
            Ok(a) => abi_in(json@) == Ok::<Abi, Seq<char>>(a),
            Err(e) => abi_in(json@) == Err::<Abi, Seq<char>>(e@),
        },
{
    if can_be_read(json) {
        parse_abi(json)
    } else {
        Err("the interface has a type that cannot be read".to_owned())
    }
}

} // verus!
