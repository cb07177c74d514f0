use vstd::prelude::*;

use crate::symbol::opt_view;

verus! {

/// The kinds of debugging entries that the matcher tells apart.
#[derive(Debug, Clone, Copy, PartialEq, Eq)]
pub enum DieTag {
    Variable,
    Typedef,
    Other,
}

/// A reference attribute of an entry.
#[derive(Debug, Clone, Copy, PartialEq, Eq)]
pub enum AttrRef {
    /// The attribute is not present.
    Absent,
    /// A reference to the entry at this offset of the same unit.
    Unit(usize),
    /// Present, in a form other than a unit reference.
    OtherForm,
}

/// One debugging information entry of a unit, reduced to what the matcher
/// reads: its offset in the unit, its tag, its name and linkage name, and its
/// type and specification references.
#[derive(Debug, Clone)]
pub struct DieRecord {
    pub offset: usize,
    pub tag: DieTag,
    pub name: Option<String>,
    pub linkage_name: Option<String>,
    pub type_ref: AttrRef,
    pub specification: AttrRef,
}

/// The model of an entry.
pub struct DieView {
    pub offset: usize,
    pub tag: DieTag,
    pub name: Option<Seq<char>>,
    pub linkage_name: Option<Seq<char>>,
    pub type_ref: AttrRef,
    pub specification: AttrRef,
}

impl View for DieRecord {
    type V = DieView;

    open spec fn view(&self) -> DieView {
        DieView {
            offset: self.offset,
            tag: self.tag,
            name: opt_view(self.name),
            linkage_name: opt_view(self.linkage_name),
            type_ref: self.type_ref,
            specification: self.specification,
        }
    }
}

/// What identifies the variable: its plain name, or its linkage name.
#[derive(Debug, Clone)]
pub struct VarKey {
    pub by_linkage: bool,
    pub text: String,
}

/// Why no type was found in a unit.
#[derive(Debug, Clone, Copy, PartialEq, Eq)]
pub enum DwarfError {
    /// No variable entry of the unit matches.
    NoMatch,
    /// A typedef entry has no usable type reference.
    BadTypedef,
    /// The typedef chain is longer than the depth cap (or loops).
    TooDeep,
}

/// Longest typedef chain that is followed.
pub const MAX_TYPEDEF_DEPTH: usize = 64;

/// The key for a symbol: a local (static) symbol has no linkage name in the
/// debug information and is found by its plain name; another symbol by its
/// mangled name where it has one.
pub open spec fn key_of(demangled: Seq<char>, mangled: Option<Seq<char>>, is_local: bool) -> (bool, Seq<char>) {
    if is_local {
        (false, demangled)
    } else {
        match mangled {
            Some(m) => (true, m),
            None => (false, demangled),
        }
    }
}

pub fn match_key(demangled: &str, mangled: Option<&str>, is_local: bool) -> (r: VarKey)
    ensures
        (r.by_linkage, r.text@) == key_of(
            demangled@,
            match mangled {
                Some(m) => Some(m@),
                None => None,
            },
            is_local,
        ),
{
    if is_local {
        VarKey { by_linkage: false, text: String::from_str(demangled) }
    } else {
        match mangled {
            Some(m) => VarKey { by_linkage: true, text: String::from_str(m) },
            None => VarKey { by_linkage: false, text: String::from_str(demangled) },
        }
    }
}

/// Whether the entry's name (or linkage name) is the key.
pub open spec fn key_matches(d: DieView, by_linkage: bool, text: Seq<char>) -> bool {
    if by_linkage {
        d.linkage_name == Some(text)
    } else {
        d.name == Some(text)
    }
}

/// The type reference of a variable entry: its type attribute, or where
/// that is absent its specification.
pub open spec fn var_type_of(d: DieView) -> Option<usize> {
    match d.type_ref {
        AttrRef::Unit(o) => Some(o),
        AttrRef::OtherForm => None,
        AttrRef::Absent => match d.specification {
            AttrRef::Unit(o) => Some(o),
            _ => None,
        },
    }
}

/// The type reference of the first variable entry from `i` on whose key
/// matches and whose type reference is a unit reference.
pub open spec fn first_var_type(dies: Seq<DieView>, by_linkage: bool, text: Seq<char>, i: int) -> Option<
    usize,
>
    decreases dies.len() - i,
{
    if i < 0 || i >= dies.len() {
        None
    } else if dies[i].tag == DieTag::Variable && key_matches(dies[i], by_linkage, text)
        && var_type_of(dies[i]) is Some {
        var_type_of(dies[i])
    } else {
        first_var_type(dies, by_linkage, text, i + 1)
    }
}

/// The first entry from `i` on at offset `off`.
pub open spec fn entry_at(dies: Seq<DieView>, off: usize, i: int) -> Option<DieView>
    decreases dies.len() - i,
{
    if i < 0 || i >= dies.len() {
        None
    } else if dies[i].offset == off {
        Some(dies[i])
    } else {
        entry_at(dies, off, i + 1)
    }
}

/// Follows typedef entries from `t`, at most `fuel` of them, to the first
/// offset that is not a typedef entry.
pub open spec fn follow_typedefs(dies: Seq<DieView>, t: usize, fuel: nat) -> Result<usize, DwarfError>
    decreases fuel,
{
    match entry_at(dies, t, 0) {
        Some(d) => if d.tag == DieTag::Typedef {
            if fuel == 0 {
                Err(DwarfError::TooDeep)
            } else {
                match d.type_ref {
                    AttrRef::Unit(p) => follow_typedefs(dies, p, (fuel - 1) as nat),
                    _ => Err(DwarfError::BadTypedef),
                }
            }
        } else {
            Ok(t)
        },
        None => Ok(t),
    }
}

/// The refined type of the variable in one unit.
pub open spec fn unit_type(dies: Seq<DieView>, by_linkage: bool, text: Seq<char>) -> Result<usize, DwarfError> {
    match first_var_type(dies, by_linkage, text, 0) {
        Some(t) => follow_typedefs(dies, t, MAX_TYPEDEF_DEPTH as nat),
        None => Err(DwarfError::NoMatch),
    }
}

pub open spec fn die_views(dies: Seq<DieRecord>) -> Seq<DieView> {
    dies.map_values(|d: DieRecord| d@)
}

fn opt_eq(a: &Option<String>, b: &String) -> (r: bool)
    ensures
        r == (opt_view(*a) == Some(b@)),
{
    match a {
        Some(s) => *s == *b,
        None => false,
    }
}

/// The entry at offset `off`, if the unit has one.
fn find_entry(dies: &Vec<DieRecord>, off: usize) -> (r: Option<usize>)
    ensures
        match r {
            Some(i) => i < dies@.len() && entry_at(die_views(dies@), off, 0) == Some(
                dies@[i as int]@,
            ),
            None => entry_at(die_views(dies@), off, 0) is None,
        },
{
    let ghost v = die_views(dies@);
    let mut i: usize = 0;
    while i < dies.len()
        invariant
            i <= dies@.len(),
            v == die_views(dies@),
            entry_at(v, off, 0) == entry_at(v, off, i as int),
        decreases dies@.len() - i,
    {
        if dies[i].offset == off {
            return Some(i);
        }
        i = i + 1;
    }
    None
}

/// Follows the typedef entries of the unit from offset `t` to a type that
/// is not a typedef, over at most `MAX_TYPEDEF_DEPTH` typedefs.
pub fn follow_typedef_tag(dies: &Vec<DieRecord>, t: usize) -> (r: Result<usize, DwarfError>)
    ensures
        r == follow_typedefs(die_views(dies@), t, MAX_TYPEDEF_DEPTH as nat),
{
    let ghost v = die_views(dies@);
    let mut cur = t;
    let mut fuel: usize = MAX_TYPEDEF_DEPTH;
    loop
        invariant
            v == die_views(dies@),
            fuel <= MAX_TYPEDEF_DEPTH,
            follow_typedefs(v, t, MAX_TYPEDEF_DEPTH as nat) == follow_typedefs(
                v,
                cur,
                fuel as nat,
            ),
        decreases fuel,
    {
        match find_entry(dies, cur) {
            None => return Ok(cur),
            Some(i) => {
                if !matches!(dies[i].tag, DieTag::Typedef) {
                    return Ok(cur);
                }
                if fuel == 0 {
                    return Err(DwarfError::TooDeep);
                }
                match dies[i].type_ref {
                    AttrRef::Unit(p) => {
                        cur = p;
                        fuel = fuel - 1;
                    },
                    _ => return Err(DwarfError::BadTypedef),
                }
            },
        }
    }
}

/// The refined type of the variable that `key` names, in one unit: the
/// first matching variable entry's type, through its typedefs.
pub fn filter_die(dies: &Vec<DieRecord>, key: &VarKey) -> (r: Result<usize, DwarfError>)
    ensures
        r == unit_type(die_views(dies@), key.by_linkage, key.text@),
{
    let ghost v = die_views(dies@);
    let mut i: usize = 0;
    while i < dies.len()
        invariant
            i <= dies@.len(),
            v == die_views(dies@),
            first_var_type(v, key.by_linkage, key.text@, 0) == first_var_type(
                v,
                key.by_linkage,
                key.text@,
                i as int,
            ),
        decreases dies@.len() - i,
    {
        let d = &dies[i];
        if matches!(d.tag, DieTag::Variable) {
            let hit = if key.by_linkage {
                opt_eq(&d.linkage_name, &key.text)
            } else {
                opt_eq(&d.name, &key.text)
            };
            if hit {
                let ty = match d.type_ref {
                    AttrRef::Unit(o) => Some(o),
                    AttrRef::OtherForm => None,
                    AttrRef::Absent => match d.specification {
                        AttrRef::Unit(o) => Some(o),
                        _ => None,
                    },
                };
                if let Some(t) = ty {
                    return follow_typedef_tag(dies, t);
                }
            }
        }
        i = i + 1;
    }
    Err(DwarfError::NoMatch)
}

/// The refined types found in `units`, in unit order, one for each unit
/// that has the variable.
pub open spec fn types_in_units(units: Seq<Seq<DieView>>, by_linkage: bool, text: Seq<char>) -> Seq<
    usize,
>
    decreases units.len(),
{
    if units.len() == 0 {
        seq![]
    } else {
        let prev = types_in_units(units.drop_last(), by_linkage, text);
        match unit_type(units.last(), by_linkage, text) {
            Ok(t) => prev.push(t),
            Err(_) => prev,
        }
    }
}

pub open spec fn unit_views(units: Seq<Vec<DieRecord>>) -> Seq<Seq<DieView>> {
    units.map_values(|u: Vec<DieRecord>| die_views(u@))
}

/// The refined type of the variable that `key` names in each unit that has
/// it, in unit order; units without it are passed over.
pub fn infer_var_type(units: &Vec<Vec<DieRecord>>, key: &VarKey) -> (r: Vec<usize>)
    ensures
        r@ == types_in_units(unit_views(units@), key.by_linkage, key.text@),
{
    let ghost v = unit_views(units@);
    let mut out: Vec<usize> = Vec::new();
    let mut i: usize = 0;
    while i < units.len()
        invariant
            i <= units@.len(),
            v == unit_views(units@),
            out@ == types_in_units(v.take(i as int), key.by_linkage, key.text@),
        decreases units@.len() - i,
    {
        let found = filter_die(&units[i], key);
        proof {
            assert(v.take(i + 1).drop_last() =~= v.take(i as int));
            assert(v.take(i + 1).last() == die_views(units@[i as int]@));
        }
        match found {
            Ok(t) => out.push(t),
            Err(_) => {},
        }
        i = i + 1;
    }
    proof {
        assert(v.take(i as int) =~= v);
    }
    out
}

} // verus!
