//! Reflection records of the host, told apart by their kind and read
//! through one accessor per kind.

use vstd::prelude::*;
use vstd::string::StringExecFns;

verus! {

/// The kinds of reflection records.
#[derive(Debug, Clone, Copy, PartialEq, Eq, Hash, Structural)]
pub enum DecimaRTTIKind {
    Atom,
    Pointer,
    Container,
    Enum,
    Compound,
    FlagsEnum,
    Pod,
    BitSetEnum,
}

/// A base of a compound type: the address of the base's record, and where
/// the base lies inside the compound.
#[derive(Debug, Clone, Copy, PartialEq, Eq, Hash, Structural)]
pub struct DecimaRTTICompoundBase {
    pub base_type: usize,
    pub offset: u32,
}

/// The record of an atomic type.
#[derive(Debug)]
pub struct DecimaRTTIAtom {
    pub id: u32,
    pub name: String,
}

/// The record of a pointer type: the name of the pointer template, where it
/// has one, and the record of what it points to.
#[derive(Debug)]
pub struct DecimaRTTIPointer {
    pub id: u32,
    pub outer_name: Option<String>,
    pub item_type: Box<DecimaRTTI>,
}

/// The record of a container type: the name of the container template,
/// where it has one, and the record of what it holds.
#[derive(Debug)]
pub struct DecimaRTTIContainer {
    pub id: u32,
    pub outer_name: Option<String>,
    pub item_type: Box<DecimaRTTI>,
}

/// The record of an enumeration; `flags` tells a flags enumeration from a
/// plain one.
#[derive(Debug)]
pub struct DecimaRTTIEnum {
    pub id: u32,
    pub flags: bool,
    pub name: String,
}

/// The record of a compound type.
#[derive(Debug)]
pub struct DecimaRTTICompound {
    pub id: u32,
    pub name: String,
    pub bases: Vec<DecimaRTTICompoundBase>,
}

/// The record of a plain-data type, which has a size and no name.
#[derive(Debug, Clone, Copy, PartialEq, Eq, Hash, Structural)]
pub struct DecimaRTTIPod {
    pub id: u32,
    pub size: u32,
}

/// The record of a bit-set enumeration.
#[derive(Debug)]
pub struct DecimaRTTIBitSetEnum {
    pub id: u32,
    pub name: String,
}

/// A reflection record: one variant for each shape of record.
#[derive(Debug)]
pub enum DecimaRTTI {
    Atom(DecimaRTTIAtom),
    Pointer(DecimaRTTIPointer),
    Container(DecimaRTTIContainer),
    Enum(DecimaRTTIEnum),
    Compound(DecimaRTTICompound),
    Pod(DecimaRTTIPod),
    BitSetEnum(DecimaRTTIBitSetEnum),
}

/// The digit of a number below 16 in lower-case hexadecimal.
pub open spec fn hex_digit(d: nat) -> char {
    if d < 10 {
        (0x30 + d) as char
    } else {
        (0x61 + d - 10) as char
    }
}

/// A number in lower-case hexadecimal, without leading zeros.
pub open spec fn lower_hex(value: nat) -> Seq<char>
    decreases value,
{
    if value < 16 {
        seq![hex_digit(value)]
    } else {
        lower_hex(value / 16).push(hex_digit(value % 16))
    }
}

/// Formats a number with `format!` and `{:x}`. Not proved: that the text is
/// the number in lower-case hexadecimal without leading zeros.
#[verifier::external_body]
fn format_lower_hex(value: u32) -> (text: String)
    ensures
        text@ == lower_hex(value as nat),
{
    format!("{:x}", value)
}

/// A text that may be absent, and is empty then.
pub open spec fn text_or_empty(text: Option<String>) -> Seq<char> {
    match text {
        Some(t) => t@,
        None => Seq::empty(),
    }
}

/// Something that has a symbol name.
pub trait NamedRTTI {
    /// The symbol name.
    spec fn symbol_name(&self) -> Seq<char>;

    /// The symbol name as text.
    fn get_symbol_name(&self) -> (name: String)
        ensures
            name@ == self.symbol_name(),
    ;
}

impl NamedRTTI for DecimaRTTIPod {
    open spec fn symbol_name(&self) -> Seq<char> {
        "DecimaRTTIPod("@ + lower_hex(self.size as nat) + ")"@
    }

    fn get_symbol_name(&self) -> (name: String) {
        let mut name = "DecimaRTTIPod(".to_owned();
        name.append(format_lower_hex(self.size).as_str());
        name.append(")");
        name
    }
}

impl DecimaRTTI {
    /// The kind of the record.
    pub open spec fn kind_spec(&self) -> DecimaRTTIKind {
        match self {
            DecimaRTTI::Atom(_) => DecimaRTTIKind::Atom,
            DecimaRTTI::Pointer(_) => DecimaRTTIKind::Pointer,
            DecimaRTTI::Container(_) => DecimaRTTIKind::Container,
            DecimaRTTI::Enum(e) => if e.flags {
                DecimaRTTIKind::FlagsEnum
            } else {
                DecimaRTTIKind::Enum
            },
            DecimaRTTI::Compound(_) => DecimaRTTIKind::Compound,
            DecimaRTTI::Pod(_) => DecimaRTTIKind::Pod,
            DecimaRTTI::BitSetEnum(_) => DecimaRTTIKind::BitSetEnum,
        }
    }

    /// The symbol name of the record: the type's own name; for a pointer or
    /// a container the outer name, then the item's symbol name in angle
    /// brackets; for plain data its size in hexadecimal.
    pub open spec fn name_spec(&self) -> Seq<char>
        decreases self,
    {
        match self {
            DecimaRTTI::Atom(atom) => atom.name@,
            DecimaRTTI::Pointer(pointer) => text_or_empty(pointer.outer_name) + "<"@
                + pointer.item_type.name_spec() + ">"@,
            DecimaRTTI::Container(container) => text_or_empty(container.outer_name) + "<"@
                + container.item_type.name_spec() + ">"@,
            DecimaRTTI::Enum(e) => e.name@,
            DecimaRTTI::Compound(compound) => compound.name@,
            DecimaRTTI::Pod(pod) => pod.symbol_name(),
            DecimaRTTI::BitSetEnum(bits) => bits.name@,
        }
    }

    /// The kind of the record.
    pub fn kind(&self) -> (kind: DecimaRTTIKind)
        ensures
            kind == self.kind_spec(),
    {
        match self {
            DecimaRTTI::Atom(_) => DecimaRTTIKind::Atom,
            DecimaRTTI::Pointer(_) => DecimaRTTIKind::Pointer,
            DecimaRTTI::Container(_) => DecimaRTTIKind::Container,
            DecimaRTTI::Enum(e) => {
                if e.flags {
                    DecimaRTTIKind::FlagsEnum
                } else {
                    DecimaRTTIKind::Enum
                }
            },
            DecimaRTTI::Compound(_) => DecimaRTTIKind::Compound,
            DecimaRTTI::Pod(_) => DecimaRTTIKind::Pod,
            DecimaRTTI::BitSetEnum(_) => DecimaRTTIKind::BitSetEnum,
        }
    }

    /// The record as that of an atomic type, if it is one.
    pub fn as_atom(&self) -> (atom: Option<&DecimaRTTIAtom>)
        ensures
            match atom {
                Some(a) => *self == DecimaRTTI::Atom(*a),
                None => self.kind_spec() != DecimaRTTIKind::Atom,
            },
    {
        match self {
            DecimaRTTI::Atom(atom) => Some(atom),
            _ => None,
        }
    }

    /// The record as that of a pointer type, if it is one.
    pub fn as_pointer(&self) -> (pointer: Option<&DecimaRTTIPointer>)
        ensures
            match pointer {
                Some(p) => *self == DecimaRTTI::Pointer(*p),
                None => self.kind_spec() != DecimaRTTIKind::Pointer,
            },
    {
        match self {
            DecimaRTTI::Pointer(pointer) => Some(pointer),
            _ => None,
        }
    }

    /// The record as that of a container type, if it is one.
    pub fn as_container(&self) -> (container: Option<&DecimaRTTIContainer>)
        ensures
            match container {
                Some(c) => *self == DecimaRTTI::Container(*c),
                None => self.kind_spec() != DecimaRTTIKind::Container,
            },
    {
        match self {
            DecimaRTTI::Container(container) => Some(container),
            _ => None,
        }
    }

    /// The record as that of an enumeration, plain or of flags, if it is
    /// one.
    pub fn as_enum(&self) -> (found: Option<&DecimaRTTIEnum>)
        ensures
            match found {
                Some(e) => *self == DecimaRTTI::Enum(*e),
                None => self.kind_spec() != DecimaRTTIKind::Enum && self.kind_spec()
                    != DecimaRTTIKind::FlagsEnum,
            },
    {
        match self {
            DecimaRTTI::Enum(e) => Some(e),
            _ => None,
        }
    }

    /// The record as that of a compound type, if it is one.
    pub fn as_compound(&self) -> (compound: Option<&DecimaRTTICompound>)
        ensures
            match compound {
                Some(c) => *self == DecimaRTTI::Compound(*c),
                None => self.kind_spec() != DecimaRTTIKind::Compound,
            },
    {
        match self {
            DecimaRTTI::Compound(compound) => Some(compound),
            _ => None,
        }
    }

    /// The record as that of a plain-data type, if it is one.
    pub fn as_pod(&self) -> (pod: Option<&DecimaRTTIPod>)
        ensures
            match pod {
                Some(p) => *self == DecimaRTTI::Pod(*p),
                None => self.kind_spec() != DecimaRTTIKind::Pod,
            },
    {
        match self {
            DecimaRTTI::Pod(pod) => Some(pod),
            _ => None,
        }
    }

    /// The record as that of a bit-set enumeration, if it is one.
    pub fn as_bitset_enum(&self) -> (bits: Option<&DecimaRTTIBitSetEnum>)
        ensures
            match bits {
                Some(b) => *self == DecimaRTTI::BitSetEnum(*b),
                None => self.kind_spec() != DecimaRTTIKind::BitSetEnum,
            },
    {
        match self {
            DecimaRTTI::BitSetEnum(bits) => Some(bits),
            _ => None,
        }
    }

    fn wrapped_name(outer_name: &Option<String>, item_name: String) -> (name: String)
        ensures
            name@ == text_or_empty(*outer_name) + "<"@ + item_name@ + ">"@,
    {
        let mut name = match outer_name {
            Some(outer) => outer.clone(),
            None => String::new(),
        };
        name.append("<");
        name.append(item_name.as_str());
        name.append(">");
        name
    }

    /// The symbol name of the record.
    pub fn get_symbol_name(&self) -> (name: String)
        ensures
            name@ == self.name_spec(),
        decreases self,
    {
        match self {
            DecimaRTTI::Atom(atom) => atom.name.clone(),
            DecimaRTTI::Pointer(pointer) => Self::wrapped_name(
                &pointer.outer_name,
                pointer.item_type.get_symbol_name(),
            ),
            DecimaRTTI::Container(container) => Self::wrapped_name(
                &container.outer_name,
                container.item_type.get_symbol_name(),
            ),
            DecimaRTTI::Enum(e) => e.name.clone(),
            DecimaRTTI::Compound(compound) => compound.name.clone(),
            DecimaRTTI::Pod(pod) => pod.get_symbol_name(),
            DecimaRTTI::BitSetEnum(bits) => bits.name.clone(),
        }
    }
}

impl NamedRTTI for DecimaRTTI {
    open spec fn symbol_name(&self) -> Seq<char> {
        self.name_spec()
    }

    fn get_symbol_name(&self) -> (name: String) {
        DecimaRTTI::get_symbol_name(self)
    }
}

} // verus!
