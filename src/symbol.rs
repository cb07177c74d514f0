use symbolic_demangle::Demangle;
use vstd::prelude::*;

verus! {

/// What demangling a raw linker name gives: a C++ or Rust name in readable
/// form, or the raw name itself where no demangler accepts it.
pub uninterp spec fn demangled_of(raw: Seq<char>) -> Seq<char>;

/// Whether the raw linker name is recognized as mangled by some language.
pub uninterp spec fn language_known_of(raw: Seq<char>) -> bool;

/// Whether `pattern` is a valid regular expression.
pub uninterp spec fn regex_compiles(pattern: Seq<char>) -> bool;

/// Whether the regular expression `pattern` matches somewhere in `text`.
pub uninterp spec fn regex_matches(pattern: Seq<char>, text: Seq<char>) -> bool;

/// Relies on symbolic_demangle's `Demangle::try_demangle` on a
/// `symbolic_common::Name` built from the raw name, with names only and
/// parameters kept: the demangled name, or the raw name where demangling fails.
#[verifier::external_body]
pub(crate) fn demangle_name(raw: &str) -> (r: String)
    ensures
        r@ == demangled_of(raw@),
{
    let opts = symbolic_demangle::DemangleOptions::name_only().parameters(true);
    symbolic_common::Name::from(raw).try_demangle(opts).into_owned()
}

/// Relies on symbolic_demangle's `Demangle::detect_language` on a
/// `symbolic_common::Name` built from the raw name: anything but
/// `Language::Unknown` counts as known.
#[verifier::external_body]
pub(crate) fn has_known_language(raw: &str) -> (r: bool)
    ensures
        r == language_known_of(raw@),
{
    symbolic_common::Name::from(raw).detect_language() != symbolic_common::Language::Unknown
}

#[verifier::external_type_specification]
#[verifier::external_body]
pub struct ExRegex(regex::Regex);

/// A compiled regular expression together with the text it was compiled
/// from.
pub struct Pattern {
    re: regex::Regex,
    text: Ghost<Seq<char>>,
}

impl Pattern {
    /// The source text of the expression.
    pub closed spec fn text(&self) -> Seq<char> {
        self.text@
    }

    /// Relies on `regex::Regex::new`: `None` exactly when `p` is not a valid
    /// expression.
    #[verifier::external_body]
    pub(crate) fn compile(p: &str) -> (r: Option<Pattern>)
        ensures
            r is Some <==> regex_compiles(p@),
            r matches Some(pat) ==> pat.text() == p@,
    {
        match regex::Regex::new(p) {
            Ok(re) => Some(Pattern { re, text: Ghost(p@) }),
            Err(_) => None,
        }
    }

    /// Relies on `regex::Regex::is_match`: whether the expression matches
    /// anywhere in `t`.
    #[verifier::external_body]
    pub(crate) fn is_match(&self, t: &str) -> (r: bool)
        ensures
            r == regex_matches(self.text(), t@),
    {
        self.re.is_match(t)
    }
}

/// Compiler and runtime artifacts that are never offered as candidates:
/// anonymous-namespace markers, libc-internal and `std::` names, guard
/// variables, `__func__` statics and numeric clone suffixes.
pub const NOISE_PATTERN: &'static str =
    r"(anonymous namespace)|@GLIBC|std::|_IO_stdin_used|^\._|^__gnu_|^__cxxabiv|^guard variable|\)::__func__$|\.\d+$";

/// Whether a demangled name is one of the denylisted artifacts.
pub open spec fn is_noise(name: Seq<char>) -> bool {
    regex_matches(NOISE_PATTERN@, name)
}

/// The compiled denylist.
pub struct Denylist {
    pat: Pattern,
}

impl Denylist {
    pub closed spec fn wf(&self) -> bool {
        self.pat.text() == NOISE_PATTERN@
    }

    /// Compiles the denylist; `None` only if its expression were invalid.
    pub fn new() -> (r: Option<Denylist>)
        ensures
            r is Some <==> regex_compiles(NOISE_PATTERN@),
            r matches Some(d) ==> d.wf(),
    {
        match Pattern::compile(NOISE_PATTERN) {
            Some(pat) => Some(Denylist { pat }),
            None => None,
        }
    }

    /// Whether `name` is a denylisted artifact.
    pub fn matches(&self, name: &str) -> (r: bool)
        requires
            self.wf(),
        ensures
            r == is_noise(name@),
    {
        self.pat.is_match(name)
    }
}

/// The model of a symbol entry.
pub struct SymView {
    pub addr: u64,
    pub size: u64,
    pub bind: u8,
    pub name: Seq<char>,
    pub mangled: Option<Seq<char>>,
    pub section: Seq<char>,
}

/// A data symbol of the image: its link-time address and size, its binding,
/// its demangled display name, its raw linker name where that is mangled, and
/// the name of its section.
#[derive(Debug, Clone)]
pub struct SymEntry {
    obj_addr: u64,
    obj_size: u64,
    bind_type: u8,
    origin_name: String,
    mangled_name: Option<String>,
    section: String,
}

/// The binding of a symbol local to its object file.
pub const STB_LOCAL: u8 = 0;

/// The binding of a symbol visible to all object files.
pub const STB_GLOBAL: u8 = 1;

/// The symbol type of a data object.
pub const STT_OBJECT: u8 = 1;

pub open spec fn opt_view(o: Option<String>) -> Option<Seq<char>> {
    match o {
        Some(s) => Some(s@),
        None => None,
    }
}

impl View for SymEntry {
    type V = SymView;

    closed spec fn view(&self) -> SymView {
        SymView {
            addr: self.obj_addr,
            size: self.obj_size,
            bind: self.bind_type,
            name: self.origin_name@,
            mangled: opt_view(self.mangled_name),
            section: self.section@,
        }
    }
}

impl SymEntry {
    pub fn new(
        obj_addr: u64,
        obj_size: u64,
        bind_type: u8,
        origin_name: String,
        mangled_name: Option<String>,
        section: String,
    ) -> (r: SymEntry)
        ensures
            r@ == (SymView {
                addr: obj_addr,
                size: obj_size,
                bind: bind_type,
                name: origin_name@,
                mangled: opt_view(mangled_name),
                section: section@,
            }),
    {
        SymEntry { obj_addr, obj_size, bind_type, origin_name, mangled_name, section }
    }

    /// Link-time address.
    pub fn obj_addr(&self) -> (r: u64)
        ensures
            r == self@.addr,
    {
        self.obj_addr
    }

    /// Size in bytes.
    pub fn obj_size(&self) -> (r: u64)
        ensures
            r == self@.size,
    {
        self.obj_size
    }

    /// Whether the symbol is local to its object file (a `static`).
    pub fn is_local_bind(&self) -> (r: bool)
        ensures
            r == (self@.bind == STB_LOCAL),
    {
        self.bind_type == STB_LOCAL
    }

    /// The demangled display name.
    pub fn origin_name(&self) -> (r: &str)
        ensures
            r@ == self@.name,
    {
        self.origin_name.as_str()
    }

    /// The raw linker name, where it is mangled.
    pub fn mangled_name(&self) -> (r: Option<&str>)
        ensures
            r is Some <==> self@.mangled is Some,
            r matches Some(m) ==> Some(m@) == self@.mangled,
    {
        match &self.mangled_name {
            Some(m) => Some(m.as_str()),
            None => None,
        }
    }

    /// The name of the section that holds the symbol.
    pub fn section(&self) -> (r: &str)
        ensures
            r@ == self@.section,
    {
        self.section.as_str()
    }
}

} // verus!
