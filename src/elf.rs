use vstd::prelude::*;

use crate::address::ImageKind;
use crate::symbol::{
    demangle_name, demangled_of, has_known_language, is_noise, language_known_of, opt_view, regex_compiles,
    regex_matches, Denylist, Pattern, NOISE_PATTERN, SymEntry, SymView, STB_GLOBAL, STB_LOCAL, STT_OBJECT,
};
use crate::process::{contains, contains_str};
use crate::text::{has_prefix, starts_with};

verus! {

#[verifier::external_type_specification]
#[verifier::external_body]
pub struct ExElf<'a>(goblin::elf::Elf<'a>);

#[verifier::external_type_specification]
pub struct ExSym(goblin::elf::sym::Sym);

#[verifier::external_type_specification]
pub struct ExSectionHeader(goblin::elf::SectionHeader);

pub assume_specification[ goblin::elf::sym::Sym::st_type ](sym: &goblin::elf::sym::Sym) -> (r: u8)
    ensures
        r == sym.st_info & 0xf,
;

pub assume_specification[ goblin::elf::sym::Sym::st_bind ](sym: &goblin::elf::sym::Sym) -> (r: u8)
    ensures
        r == sym.st_info >> 4,
;

/// Whether the first 16 bytes carry a magic number of a known object format.
pub uninterp spec fn magic_recognized(prefix: Seq<u8>) -> bool;

/// How the bytes parse as an object file: `Some(true)` an ELF image,
/// `Some(false)` another format, `None` malformed.
pub uninterp spec fn object_parse_of(bytes: Seq<u8>) -> Option<bool>;

/// The type field of the ELF header of `bytes`.
pub uninterp spec fn elf_header_type_of(bytes: Seq<u8>) -> u16;

/// The entries of the symbol table of `bytes`, in table order.
pub uninterp spec fn elf_symbols_of(bytes: Seq<u8>) -> Seq<goblin::elf::sym::Sym>;

/// The string at offset `off` of the symbol string table of `bytes`.
pub uninterp spec fn symbol_string_of(bytes: Seq<u8>, off: usize) -> Option<Seq<char>>;

/// The section headers of `bytes`, in table order.
pub uninterp spec fn elf_sections_of(bytes: Seq<u8>) -> Seq<goblin::elf::SectionHeader>;

/// The string at offset `off` of the section-name string table of `bytes`.
pub uninterp spec fn section_string_of(bytes: Seq<u8>, off: usize) -> Option<Seq<char>>;

/// The section index of absolute symbols.
pub const SHN_ABS: usize = 0xfff1;

/// Header type of a fixed-address executable.
pub const ET_EXEC: u16 = 2;

/// Header type of a shared or position-independent object.
pub const ET_DYN: u16 = 3;

/// Number of bytes needed to recognize the format.
pub const MAGIC_LEN: usize = 16;

/// Why bytes were not accepted as an ELF image.
#[derive(Debug, Clone, Copy, PartialEq, Eq)]
pub enum FormatError {
    /// Fewer bytes than the format prefix.
    TooSmall,
    /// An unknown magic number, or an object format other than ELF.
    UnsupportedFormat,
    /// ELF magic, but the image does not parse.
    Malformed,
}

/// Relies on `goblin::peek_bytes`: whether the 16-byte prefix is a known
/// format (neither an error nor `Hint::Unknown`). The source returns
/// `Hint::Elf` for the ELF magic.
#[verifier::external_body]
fn peek_known_magic(bytes: &[u8]) -> (r: bool)
    requires
        bytes@.len() >= MAGIC_LEN,
    ensures
        r == magic_recognized(bytes@.take(MAGIC_LEN as int)),
        bytes@.take(4) == seq![0x7fu8, 0x45u8, 0x4cu8, 0x46u8] ==> r,
{
    let prefix: &[u8; 16] = match bytes[..MAGIC_LEN].try_into() {
        Ok(p) => p,
        Err(_) => return false,
    };
    !matches!(goblin::peek_bytes(prefix), Ok(goblin::Hint::Unknown(_)) | Err(_))
}

enum ParsedObject<'a> {
    Elf(goblin::elf::Elf<'a>),
    OtherFormat,
    Malformed,
}

/// Relies on `goblin::Object::parse`: an ELF image, another format, or an
/// error.
#[verifier::external_body]
fn parse_object<'a>(bytes: &'a [u8]) -> (r: ParsedObject<'a>)
    ensures
        object_parse_of(bytes@) == match r {
            ParsedObject::Elf(_) => Some(true),
            ParsedObject::OtherFormat => Some(false),
            ParsedObject::Malformed => None::<bool>,
        },
{
    match goblin::Object::parse(bytes) {
        Ok(goblin::Object::Elf(elf)) => ParsedObject::Elf(elf),
        Ok(_) => ParsedObject::OtherFormat,
        Err(_) => ParsedObject::Malformed,
    }
}

/// How bytes are classified before an image is made of them.
pub open spec fn parse_outcome(bytes: Seq<u8>) -> Result<(), FormatError> {
    if bytes.len() < MAGIC_LEN {
        Err(FormatError::TooSmall)
    } else if !magic_recognized(bytes.take(MAGIC_LEN as int)) {
        Err(FormatError::UnsupportedFormat)
    } else {
        match object_parse_of(bytes) {
            Some(true) => Ok(()),
            Some(false) => Err(FormatError::UnsupportedFormat),
            None => Err(FormatError::Malformed),
        }
    }
}

/// The kind of image that an ELF header type gives.
pub open spec fn kind_of(e_type: u16) -> ImageKind {
    if e_type == ET_EXEC {
        ImageKind::FixedAddress
    } else if e_type == ET_DYN {
        ImageKind::PositionIndependent
    } else {
        ImageKind::Unsupported(e_type)
    }
}

/// Where a symbol's section index points.
#[derive(Debug, Clone, PartialEq, Eq)]
pub enum SectionLabel {
    /// Index zero: no section.
    Undefined,
    /// A section with this name.
    Named(String),
    /// A section whose name offset is not in the string table.
    BadNameOffset(usize),
    /// The absolute-symbol index.
    Absolute,
    /// An index past the section table.
    BadIndex(usize),
}

/// The name of the section at `idx`, where it is a section with a name.
pub open spec fn section_name_at(bytes: Seq<u8>, idx: usize) -> Option<Seq<char>> {
    let shdrs = elf_sections_of(bytes);
    if idx != 0 && idx < shdrs.len() {
        section_string_of(bytes, shdrs[idx as int].sh_name)
    } else {
        None
    }
}

/// Whether `label` is what section index `idx` of `bytes` points to.
pub open spec fn label_of(bytes: Seq<u8>, idx: usize, label: SectionLabel) -> bool {
    let shdrs = elf_sections_of(bytes);
    if idx == 0 {
        label == SectionLabel::Undefined
    } else if idx < shdrs.len() {
        match section_string_of(bytes, shdrs[idx as int].sh_name) {
            Some(n) => label matches SectionLabel::Named(s) && s@ == n,
            None => label == SectionLabel::BadNameOffset(shdrs[idx as int].sh_name),
        }
    } else if idx == SHN_ABS {
        label == SectionLabel::Absolute
    } else {
        label == SectionLabel::BadIndex(idx)
    }
}

/// Sections that hold data: `.bss*`, `.rodata*`, `.data*`.
pub open spec fn is_data_section(name: Seq<char>) -> bool {
    has_prefix(name, ".bss"@) || has_prefix(name, ".rodata"@) || has_prefix(name, ".data"@)
}

/// The raw linker name of `sym`, with a placeholder where the string table
/// has none.
pub open spec fn raw_name_of(bytes: Seq<u8>, sym: goblin::elf::sym::Sym) -> Seq<char> {
    match symbol_string_of(bytes, sym.st_name) {
        Some(n) => n,
        None => "BAD NAME"@,
    }
}

/// The keyword filter: no filter for an empty or invalid expression.
pub open spec fn keyword_filter(keyword: Seq<char>) -> Option<Seq<char>> {
    if keyword.len() == 0 || !regex_compiles(keyword) {
        None
    } else {
        Some(keyword)
    }
}

pub open spec fn keyword_accepts(filter: Option<Seq<char>>, name: Seq<char>) -> bool {
    match filter {
        None => true,
        Some(k) => regex_matches(k, name),
    }
}

/// A data object, local or global, in a data section, of non-zero size.
pub open spec fn is_eligible(bytes: Seq<u8>, sym: goblin::elf::sym::Sym) -> bool {
    &&& sym.st_info & 0xf == STT_OBJECT
    &&& (sym.st_info >> 4 == STB_LOCAL || sym.st_info >> 4 == STB_GLOBAL)
    &&& section_name_at(bytes, sym.st_shndx) matches Some(n) && is_data_section(n)
    &&& sym.st_size != 0
}

/// Whether `sym` is offered as a candidate for `keyword`.
pub open spec fn is_candidate(bytes: Seq<u8>, sym: goblin::elf::sym::Sym, keyword: Seq<char>) -> bool {
    let name = demangled_of(raw_name_of(bytes, sym));
    &&& is_eligible(bytes, sym)
    &&& !is_noise(name)
    &&& keyword_accepts(keyword_filter(keyword), name)
}

/// The entry made of `sym`.
pub open spec fn entry_of(bytes: Seq<u8>, sym: goblin::elf::sym::Sym) -> SymView {
    let raw = raw_name_of(bytes, sym);
    SymView {
        addr: sym.st_value,
        size: sym.st_size,
        bind: sym.st_info >> 4,
        name: demangled_of(raw),
        mangled: if language_known_of(raw) {
            Some(raw)
        } else {
            None
        },
        section: section_name_at(bytes, sym.st_shndx).unwrap(),
    }
}

/// The candidates among `syms`, in table order.
pub open spec fn candidates_in(
    bytes: Seq<u8>,
    syms: Seq<goblin::elf::sym::Sym>,
    keyword: Seq<char>,
) -> Seq<SymView>
    decreases syms.len(),
{
    if syms.len() == 0 {
        seq![]
    } else {
        let prev = candidates_in(bytes, syms.drop_last(), keyword);
        if is_candidate(bytes, syms.last(), keyword) {
            prev.push(entry_of(bytes, syms.last()))
        } else {
            prev
        }
    }
}

/// The candidates of the image `bytes` for `keyword`, in symbol-table order.
pub open spec fn candidates_of(bytes: Seq<u8>, keyword: Seq<char>) -> Seq<SymView> {
    candidates_in(bytes, elf_symbols_of(bytes), keyword)
}

/// Why no single symbol was resolved.
#[derive(Debug, Clone)]
pub enum ResolveError {
    /// The symbol table is empty.
    NoSymbols,
    /// The built-in denylist expression does not compile.
    DenylistInvalid,
    /// No candidate matches.
    NotFound,
    /// Several candidates match, in symbol-table order.
    Ambiguous(Vec<SymEntry>),
}

/// A parsed ELF image and the bytes it was parsed from. Both fields are set
/// together, only by `prase_from`, so what goblin parsed is always the image
/// of `src`: the accessors below state their results as functions of `src`.
pub struct ElfMgr<'a> {
    elf: goblin::elf::Elf<'a>,
    src: Ghost<Seq<u8>>,
}

impl<'a> ElfMgr<'a> {
    /// The bytes the image was parsed from.
    pub closed spec fn source(&self) -> Seq<u8> {
        self.src@
    }

    /// Relies on the header that goblin parsed: its type field.
    #[verifier::external_body]
    fn header_type(&self) -> (r: u16)
        ensures
            r == elf_header_type_of(self.source()),
    {
        self.elf.header.e_type
    }

    /// Relies on goblin's `Symtab::to_vec`: every entry of the symbol table,
    /// in order.
    #[verifier::external_body]
    fn symbols(&self) -> (r: Vec<goblin::elf::sym::Sym>)
        ensures
            r@ == elf_symbols_of(self.source()),
    {
        self.elf.syms.to_vec()
    }

    /// Relies on goblin's `Strtab::get_at` on the symbol string table.
    #[verifier::external_body]
    fn symbol_string(&self, off: usize) -> (r: Option<String>)
        ensures
            opt_view(r) == symbol_string_of(self.source(), off),
    {
        self.elf.strtab.get_at(off).map(String::from)
    }

    /// Relies on the section headers that goblin parsed.
    #[verifier::external_body]
    fn section_headers(&self) -> (r: &Vec<goblin::elf::SectionHeader>)
        ensures
            r@ == elf_sections_of(self.source()),
    {
        &self.elf.section_headers
    }

    /// Relies on goblin's `Strtab::get_at` on the section-name string table.
    #[verifier::external_body]
    fn section_string(&self, off: usize) -> (r: Option<String>)
        ensures
            opt_view(r) == section_string_of(self.source(), off),
    {
        self.elf.shdr_strtab.get_at(off).map(String::from)
    }

    /// Parses `bytes` as an ELF image: too few bytes for the format prefix,
    /// an unknown magic or another object format, and an image that does not
    /// parse are each refused.
    pub fn prase_from(bytes: &'a [u8]) -> (r: Result<ElfMgr<'a>, FormatError>)
        ensures
            match r {
                Ok(mgr) => parse_outcome(bytes@) == Ok::<(), FormatError>(()) && mgr.source()
                    == bytes@,
                Err(e) => parse_outcome(bytes@) == Err::<(), FormatError>(e),
            },
    {
        if bytes.len() < MAGIC_LEN {
            return Err(FormatError::TooSmall);
        }
        if !peek_known_magic(bytes) {
            return Err(FormatError::UnsupportedFormat);
        }
        match parse_object(bytes) {
            ParsedObject::Elf(elf) => Ok(ElfMgr { elf, src: Ghost(bytes@) }),
            ParsedObject::OtherFormat => Err(FormatError::UnsupportedFormat),
            ParsedObject::Malformed => Err(FormatError::Malformed),
        }
    }

    /// The kind of the image, from its header type.
    pub fn kind(&self) -> (r: ImageKind)
        ensures
            r == kind_of(elf_header_type_of(self.source())),
    {
        let t = self.header_type();
        if t == ET_EXEC {
            ImageKind::FixedAddress
        } else if t == ET_DYN {
            ImageKind::PositionIndependent
        } else {
            ImageKind::Unsupported(t)
        }
    }

    /// Whether the image is a fixed-address executable.
    pub fn is_exec_elf(&self) -> (r: bool)
        ensures
            r == (elf_header_type_of(self.source()) == ET_EXEC),
    {
        self.header_type() == ET_EXEC
    }

    /// Whether the image is a shared or position-independent object.
    pub fn is_dyn_elf(&self) -> (r: bool)
        ensures
            r == (elf_header_type_of(self.source()) == ET_DYN),
    {
        self.header_type() == ET_DYN
    }

    /// What section index `idx` points to.
    pub fn shndx_to_str(&self, idx: usize) -> (r: SectionLabel)
        ensures
            label_of(self.source(), idx, r),
    {
        if idx == 0 {
            return SectionLabel::Undefined;
        }
        let shdrs = self.section_headers();
        if idx < shdrs.len() {
            let off = shdrs[idx].sh_name;
            match self.section_string(off) {
                Some(name) => SectionLabel::Named(name),
                None => SectionLabel::BadNameOffset(off),
            }
        } else if idx == SHN_ABS {
            SectionLabel::Absolute
        } else {
            SectionLabel::BadIndex(idx)
        }
    }

    /// The entry for `sym`, where it is a candidate under the keyword filter
    /// `filter` (`None`: every name passes).
    fn filter_symbol(
        &self,
        sym: &goblin::elf::sym::Sym,
        filter: &Option<Pattern>,
        deny: &Denylist,
    ) -> (r: Option<SymEntry>)
        requires
            deny.wf(),
        ensures
            ({
                let name = demangled_of(raw_name_of(self.source(), *sym));
                let passes = match filter {
                    None => true,
                    Some(p) => regex_matches(p.text(), name),
                };
                &&& r is Some <==> (is_eligible(self.source(), *sym) && !is_noise(name) && passes)
                &&& r matches Some(e) ==> e@ == entry_of(self.source(), *sym)
            }),
    {
        let t = sym.st_type();
        let b = sym.st_bind();
        if t != STT_OBJECT || (b != STB_LOCAL && b != STB_GLOBAL) {
            return None;
        }
        let raw = match self.symbol_string(sym.st_name) {
            Some(n) => n,
            None => String::from_str("BAD NAME"),
        };
        let dem = demangle_name(raw.as_str());
        let section = match self.shndx_to_str(sym.st_shndx) {
            SectionLabel::Named(n) => n,
            _ => return None,
        };
        if !(starts_with(section.as_str(), ".bss") || starts_with(section.as_str(), ".rodata")
            || starts_with(section.as_str(), ".data")) || sym.st_size == 0 {
            return None;
        }
        if deny.matches(dem.as_str()) {
            return None;
        }
        let passes = match filter {
            None => true,
            Some(p) => p.is_match(dem.as_str()),
        };
        if !passes {
            return None;
        }
        let mangled = if has_known_language(raw.as_str()) {
            Some(raw.clone())
        } else {
            None
        };
        Some(SymEntry::new(sym.st_value, sym.st_size, b, dem, mangled, section))
    }

    /// The candidates among `syms` for `keyword`, in order.
    fn collect_candidates(&self, syms: &Vec<goblin::elf::sym::Sym>, keyword: &str) -> (r: Result<
        Vec<SymEntry>,
        ResolveError,
    >)
        ensures
            match r {
                Ok(v) => regex_compiles(NOISE_PATTERN@) && views(v@) == candidates_in(
                    self.source(),
                    syms@,
                    keyword@,
                ),
                Err(e) => !regex_compiles(NOISE_PATTERN@) && e is DenylistInvalid,
            },
    {
        let deny = match Denylist::new() {
            Some(d) => d,
            None => return Err(ResolveError::DenylistInvalid),
        };
        let filter = if keyword.unicode_len() == 0 {
            None
        } else {
            Pattern::compile(keyword)
        };
        let ghost kf = keyword_filter(keyword@);
        let mut out: Vec<SymEntry> = Vec::new();
        let mut i: usize = 0;
        while i < syms.len()
            invariant
                i <= syms@.len(),
                deny.wf(),
                kf == keyword_filter(keyword@),
                match filter {
                    None => kf is None,
                    Some(p) => kf == Some(p.text()),
                },
                views(out@) == candidates_in(self.source(), syms@.take(i as int), keyword@),
            decreases syms@.len() - i,
        {
            let ghost before = out@;
            let found = self.filter_symbol(&syms[i], &filter, &deny);
            proof {
                assert(syms@.take(i + 1).drop_last() =~= syms@.take(i as int));
                assert(syms@.take(i + 1).last() == syms@[i as int]);
            }
            match found {
                Some(e) => {
                    out.push(e);
                    proof {
                        assert(views(out@) =~= views(before).push(e@));
                    }
                },
                None => {},
            }
            i = i + 1;
        }
        proof {
            assert(syms@.take(i as int) =~= syms@);
        }
        Ok(out)
    }

    /// The candidates of the image for `keyword`, in symbol-table order:
    /// data objects, local or global, in a data section, of non-zero size,
    /// whose demangled name is not denylisted and matches `keyword` (an empty
    /// or invalid expression matches every name).
    pub fn candidates(&self, keyword: &str) -> (r: Result<Vec<SymEntry>, ResolveError>)
        ensures
            match r {
                Ok(v) => regex_compiles(NOISE_PATTERN@) && views(v@) == candidates_of(
                    self.source(),
                    keyword@,
                ),
                Err(e) => !regex_compiles(NOISE_PATTERN@) && e is DenylistInvalid,
            },
    {
        let syms = self.symbols();
        self.collect_candidates(&syms, keyword)
    }

    /// Resolves `keyword` to one symbol: the only candidate, or no candidate,
    /// or several for a later choice.
    pub fn select_sym_entry(&self, keyword: &str) -> (r: Result<SymEntry, ResolveError>)
        ensures
            ({
                let c = candidates_of(self.source(), keyword@);
                if elf_symbols_of(self.source()).len() == 0 {
                    r matches Err(ResolveError::NoSymbols)
                } else if !regex_compiles(NOISE_PATTERN@) {
                    r matches Err(ResolveError::DenylistInvalid)
                } else if c.len() == 0 {
                    r matches Err(ResolveError::NotFound)
                } else if c.len() == 1 {
                    r matches Ok(e) && e@ == c[0]
                } else {
                    r matches Err(ResolveError::Ambiguous(v)) && views(v@) == c
                }
            }),
    {
        let syms = self.symbols();
        if syms.len() == 0 {
            return Err(ResolveError::NoSymbols);
        }
        let mut found = match self.collect_candidates(&syms, keyword) {
            Ok(v) => v,
            Err(e) => return Err(e),
        };
        if found.len() == 0 {
            Err(ResolveError::NotFound)
        } else if found.len() == 1 {
            let ghost all = found@;
            let e = found.pop().unwrap();
            proof {
                assert(all =~= seq![e]);
                assert(views(all)[0] == e@);
            }
            Ok(e)
        } else {
            Err(ResolveError::Ambiguous(found))
        }
    }
}

/// The models of the entries of `v`.
pub open spec fn views(v: Seq<SymEntry>) -> Seq<SymView> {
    v.map_values(|e: SymEntry| e@)
}

proof fn lemma_candidates_in_exclude_noise(
    bytes: Seq<u8>,
    syms: Seq<goblin::elf::sym::Sym>,
    keyword: Seq<char>,
)
    ensures
        forall|i: int|
            0 <= i < candidates_in(bytes, syms, keyword).len() ==> !is_noise(
                #[trigger] candidates_in(bytes, syms, keyword)[i].name,
            ) && keyword_accepts(
                keyword_filter(keyword),
                candidates_in(bytes, syms, keyword)[i].name,
            ),
    decreases syms.len(),
{
    if syms.len() > 0 {
        lemma_candidates_in_exclude_noise(bytes, syms.drop_last(), keyword);
        let prev = candidates_in(bytes, syms.drop_last(), keyword);
        let cur = candidates_in(bytes, syms, keyword);
        assert forall|i: int| 0 <= i < cur.len() implies !is_noise(#[trigger] cur[i].name)
            && keyword_accepts(keyword_filter(keyword), cur[i].name) by {
            if i < prev.len() {
                assert(cur[i] == prev[i]);
            }
        }
    }
}

/// No denylisted name is ever offered, whatever the keyword: every candidate
/// has a name outside the denylist that the keyword filter accepts.
pub proof fn lemma_candidates_exclude_noise(bytes: Seq<u8>, keyword: Seq<char>)
    ensures
        forall|i: int|
            0 <= i < candidates_of(bytes, keyword).len() ==> !is_noise(
                #[trigger] candidates_of(bytes, keyword)[i].name,
            ) && keyword_accepts(keyword_filter(keyword), candidates_of(bytes, keyword)[i].name),
{
    lemma_candidates_in_exclude_noise(bytes, elf_symbols_of(bytes), keyword);
}

/// Parsing the same bytes twice and asking with the same keyword gives the
/// same candidates in the same order.
pub proof fn lemma_candidates_deterministic(
    first: &ElfMgr,
    second: &ElfMgr,
    keyword: Seq<char>,
    r1: Seq<SymView>,
    r2: Seq<SymView>,
)
    requires
        first.source() == second.source(),
        r1 == candidates_of(first.source(), keyword),
        r2 == candidates_of(second.source(), keyword),
    ensures
        r1 == r2,
{
}

/// Why the plain lookup of a global data symbol failed.
#[derive(Debug, Clone, Copy, PartialEq, Eq)]
pub enum MatchError {
    /// The bytes are not an ELF image.
    Format(FormatError),
    /// No global data symbol's name contains the keyword.
    NotFound,
    /// This many global data symbols' names contain the keyword.
    Multiple(usize),
}

/// A global data object whose raw name (empty where the string table has
/// none) contains `keyword`.
pub open spec fn is_plain_match(bytes: Seq<u8>, sym: goblin::elf::sym::Sym, keyword: Seq<char>) -> bool {
    let name = match symbol_string_of(bytes, sym.st_name) {
        Some(n) => n,
        None => seq![],
    };
    &&& sym.st_info & 0xf == STT_OBJECT
    &&& sym.st_info >> 4 == STB_GLOBAL
    &&& contains(name, keyword)
}

/// The plain matches among `syms`, in order.
pub open spec fn plain_matches(
    bytes: Seq<u8>,
    syms: Seq<goblin::elf::sym::Sym>,
    keyword: Seq<char>,
) -> Seq<goblin::elf::sym::Sym>
    decreases syms.len(),
{
    if syms.len() == 0 {
        seq![]
    } else {
        let prev = plain_matches(bytes, syms.drop_last(), keyword);
        if is_plain_match(bytes, syms.last(), keyword) {
            prev.push(syms.last())
        } else {
            prev
        }
    }
}

/// The address, size and image header type of the only global data symbol
/// whose raw name contains `keyword`.
pub fn match_sym_entry(bytes: &[u8], keyword: &str) -> (r: Result<(u64, u64, u16), MatchError>)
    ensures
        ({
            let m = plain_matches(bytes@, elf_symbols_of(bytes@), keyword@);
            match parse_outcome(bytes@) {
                Err(e) => r == Err::<(u64, u64, u16), MatchError>(MatchError::Format(e)),
                Ok(_) => if m.len() == 0 {
                    r == Err::<(u64, u64, u16), MatchError>(MatchError::NotFound)
                } else if m.len() == 1 {
                    r == Ok::<(u64, u64, u16), MatchError>(
                        (m[0].st_value, m[0].st_size, elf_header_type_of(bytes@)),
                    )
                } else {
                    r == Err::<(u64, u64, u16), MatchError>(MatchError::Multiple(m.len() as usize))
                },
            }
        }),
{
    let elf = match ElfMgr::prase_from(bytes) {
        Ok(elf) => elf,
        Err(e) => return Err(MatchError::Format(e)),
    };
    let syms = elf.symbols();
    let mut found: Vec<goblin::elf::sym::Sym> = Vec::new();
    let mut i: usize = 0;
    while i < syms.len()
        invariant
            i <= syms@.len(),
            syms@ == elf_symbols_of(bytes@),
            elf.source() == bytes@,
            found@ == plain_matches(bytes@, syms@.take(i as int), keyword@),
            found@.len() <= i,
        decreases syms@.len() - i,
    {
        let sym = syms[i];
        let name = match elf.symbol_string(sym.st_name) {
            Some(n) => n,
            None => String::new(),
        };
        proof {
            assert(syms@.take(i + 1).drop_last() =~= syms@.take(i as int));
            assert(syms@.take(i + 1).last() == sym);
        }
        if sym.st_type() == STT_OBJECT && sym.st_bind() == STB_GLOBAL && contains_str(
            name.as_str(),
            keyword,
        ) {
            found.push(sym);
        }
        i = i + 1;
    }
    proof {
        assert(syms@.take(i as int) =~= syms@);
    }
    if found.len() == 0 {
        Err(MatchError::NotFound)
    } else if found.len() == 1 {
        let sym = found[0];
        Ok((sym.st_value, sym.st_size, elf.header_type()))
    } else {
        Err(MatchError::Multiple(found.len()))
    }
}

} // verus!
