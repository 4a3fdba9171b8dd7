//! The eligibility filter: which files are even considered.
//!
//! A filter is built from a base registry of well-known file-type-to-glob
//! mappings and two user lists: selected entries (allow-list) and ignored
//! entries (deny-list). An entry containing a wildcard is a glob pattern
//! registered under a fresh synthetic type; any other entry names a
//! registered type. Negation is evaluated after selection and always wins.

use vstd::prelude::*;
use vstd::string::*;

use crate::errors::Error;
use crate::lines::copy_bytes;

verus! {

/// Read-only settings of one run, as the caller supplies them.
pub struct Settings {
    /// Compute and preview, but never write.
    pub dry_run: bool,
    /// Type names or glob patterns; non-empty switches to allow-list mode.
    pub selected_file_types: Vec<Vec<u8>>,
    /// Type names or glob patterns whose files are excluded; wins over
    /// selection.
    pub ignored_file_types: Vec<Vec<u8>>,
    /// Do not respect VCS-ignore rules during the walk.
    pub ignored: bool,
    /// Do not exclude hidden (dot-prefixed) entries during the walk.
    pub hidden: bool,
}

impl Default for Settings {
    /// Everything off: no type lists, VCS-ignore rules respected, hidden
    /// files excluded, writes allowed.
    fn default() -> (r: Settings)
        ensures
            !r.dry_run,
            r.selected_file_types@.len() == 0,
            r.ignored_file_types@.len() == 0,
            !r.ignored,
            !r.hidden,
    {
        Settings {
            dry_run: false,
            selected_file_types: Vec::new(),
            ignored_file_types: Vec::new(),
            ignored: false,
            hidden: false,
        }
    }
}

/// One row of the file-type registry: a type name and one glob it covers.
/// A type with several globs has several rows.
#[derive(Debug)]
pub struct FileType {
    pub name: Vec<u8>,
    pub glob: Vec<u8>,
}

/// The views of a list of byte-string entries.
pub open spec fn entry_views(es: Seq<Vec<u8>>) -> Seq<Seq<u8>> {
    es.map_values(|e: Vec<u8>| e@)
}

// ---------------------------------------------------------------------------
// Glob matching, through the globset crate.
// ---------------------------------------------------------------------------

/// The pattern bytes are valid UTF-8 and parse and compile as a glob.
pub uninterp spec fn glob_ok(pattern: Seq<u8>) -> bool;

/// The glob denoted by `pattern` matches the file name `name`.
pub uninterp spec fn glob_matches(pattern: Seq<u8>, name: Seq<u8>) -> bool;

/// Relies on `globset::Glob::new` and `GlobSetBuilder::build`, which
/// together succeed exactly on the patterns the crate accepts (valid
/// UTF-8 that parses as a glob and whose compiled form stays within the
/// crate's size limit — `build` returns an error rather than panicking
/// where `Glob::compile_matcher` would panic), and on `GlobSet::is_match`,
/// which is a function of the pattern and the candidate name alone.
#[verifier::external_body]
fn glob_match(pattern: &Vec<u8>, name: &Vec<u8>) -> (r: Option<bool>)
    ensures
        r is Some <==> glob_ok(pattern@),
        r == Some(true) ==> glob_matches(pattern@, name@),
        r == Some(false) ==> !glob_matches(pattern@, name@),
{
    let pattern_str = core::str::from_utf8(pattern.as_slice()).ok()?;
    let glob = globset::Glob::new(pattern_str).ok()?;
    let mut builder = globset::GlobSetBuilder::new();
    builder.add(glob);
    let set = builder.build().ok()?;
    let name_str = String::from_utf8_lossy(name.as_slice());
    Some(set.is_match(name_str.as_ref()))
}

// ---------------------------------------------------------------------------
// The rule engine: resolving the two user lists against the registry.
// ---------------------------------------------------------------------------

/// The entry contains a `*`, so it is a glob pattern, not a type name.
pub open spec fn has_wildcard(s: Seq<u8>) -> bool {
    exists|i: int| 0 <= i < s.len() && s[i] == 42u8
}

/// Does the entry contain a wildcard character?
fn has_wildcard_exec(s: &Vec<u8>) -> (r: bool)
    ensures
        r == has_wildcard(s@),
{
    let mut i: usize = 0;
    while i < s.len()
        invariant
            i <= s.len(),
            forall|k: int| 0 <= k < i ==> s@[k] != 42u8,
        decreases s.len() - i,
    {
        if s[i] == 42u8 {
            return true;
        }
        i = i + 1;
    }
    false
}

/// Are two byte strings equal?
fn bytes_eq(a: &Vec<u8>, b: &Vec<u8>) -> (r: bool)
    ensures
        r == (a@ == b@),
{
    if a.len() != b.len() {
        return false;
    }
    let mut i: usize = 0;
    while i < a.len()
        invariant
            i <= a.len(),
            a@.len() == b@.len(),
            forall|k: int| 0 <= k < i ==> a@[k] == b@[k],
        decreases a.len() - i,
    {
        if a[i] != b[i] {
            return false;
        }
        i = i + 1;
    }
    proof {
        assert(a@ =~= b@);
    }
    true
}

/// Some registry row bears this type name.
pub open spec fn known_type(reg: Seq<FileType>, name: Seq<u8>) -> bool {
    exists|k: int| 0 <= k < reg.len() && reg[k].name@ == name
}

/// All globs the registry lists for this type name, in registry order.
pub open spec fn registry_globs(reg: Seq<FileType>, name: Seq<u8>) -> Seq<Seq<u8>>
    decreases reg.len(),
{
    if reg.len() == 0 {
        Seq::empty()
    } else {
        registry_globs(reg.drop_last(), name) + if reg.last().name@ == name {
            seq![reg.last().glob@]
        } else {
            Seq::empty()
        }
    }
}

/// The globs one user entry stands for: itself when it is a glob pattern
/// (a fresh synthetic type with that single glob), otherwise the globs of
/// the named type.
pub open spec fn entry_globs(reg: Seq<FileType>, entry: Seq<u8>) -> Seq<Seq<u8>> {
    if has_wildcard(entry) {
        seq![entry]
    } else {
        registry_globs(reg, entry)
    }
}

/// A user entry is well-formed: a compiling glob, or a known type name.
pub open spec fn entry_ok(reg: Seq<FileType>, entry: Seq<u8>) -> bool {
    if has_wildcard(entry) {
        glob_ok(entry)
    } else {
        known_type(reg, entry)
    }
}

/// All entries of a user list are well-formed.
pub open spec fn entries_ok(reg: Seq<FileType>, entries: Seq<Seq<u8>>) -> bool {
    forall|i: int| 0 <= i < entries.len() ==> entry_ok(reg, #[trigger] entries[i])
}

/// The globs a whole user list resolves to, in order.
pub open spec fn resolve_entries(reg: Seq<FileType>, entries: Seq<Seq<u8>>) -> Seq<Seq<u8>>
    decreases entries.len(),
{
    if entries.len() == 0 {
        Seq::empty()
    } else {
        resolve_entries(reg, entries.drop_last()) + entry_globs(reg, entries.last())
    }
}

/// Resolve one user list against the registry, or reject its first
/// malformed entry.
fn resolve_list(entries: &Vec<Vec<u8>>, registry: &Vec<FileType>) -> (r: Result<
    Vec<Vec<u8>>,
    Error,
>)
    ensures
        r is Ok <==> entries_ok(registry@, entry_views(entries@)),
        r is Ok ==> entry_views(r.unwrap()@) == resolve_entries(
            registry@,
            entry_views(entries@),
        ),
        r is Err ==> r.unwrap_err() == Error::InvalidFilter,
{
    let ghost evs = entry_views(entries@);
    let mut out: Vec<Vec<u8>> = Vec::new();
    let mut i: usize = 0;
    while i < entries.len()
        invariant
            i <= entries.len(),
            evs == entry_views(entries@),
            entry_views(out@) =~= resolve_entries(registry@, evs.take(i as int)),
            forall|k: int| 0 <= k < i ==> entry_ok(registry@, #[trigger] evs[k]),
        decreases entries.len() - i,
    {
        let entry = &entries[i];
        proof {
            assert(evs[i as int] == entry@);
            assert(evs.take(i as int + 1).drop_last() =~= evs.take(i as int));
            assert(evs.take(i as int + 1).last() == entry@);
        }
        if has_wildcard_exec(entry) {
            let probe: Vec<u8> = Vec::new();
            match glob_match(entry, &probe) {
                Some(_) => {
                    out.push(copy_bytes(entry));
                    proof {
                        assert(entry_views(out@) =~= entry_views(out@.drop_last()).push(entry@));
                        assert(entry_globs(registry@, entry@) =~= seq![entry@]);
                        assert(entry_views(out@) =~= resolve_entries(
                            registry@,
                            evs.take(i as int + 1),
                        ));
                    }
                },
                None => {
                    proof {
                        assert(!entry_ok(registry@, evs[i as int]));
                    }
                    return Err(Error::InvalidFilter);
                },
            }
        } else {
            let mut found = false;
            let mut k: usize = 0;
            while k < registry.len()
                invariant
                    k <= registry.len(),
                    evs == entry_views(entries@),
                    0 <= i < entries@.len(),
                    evs[i as int] == entries@[i as int]@,
                    entry == &entries@[i as int],
                    !has_wildcard(entry@),
                    entry_views(out@) =~= resolve_entries(registry@, evs.take(i as int))
                        + registry_globs(registry@.take(k as int), entry@),
                    found == exists|k2: int|
                        0 <= k2 < k && #[trigger] registry@[k2].name@ == entry@,
                decreases registry.len() - k,
            {
                proof {
                    assert(registry@.take(k as int + 1).drop_last() =~= registry@.take(k as int));
                    assert(registry@.take(k as int + 1).last() == registry@[k as int]);
                }
                if bytes_eq(&registry[k].name, entry) {
                    let ghost prev = out@;
                    out.push(copy_bytes(&registry[k].glob));
                    found = true;
                    proof {
                        assert(out@.drop_last() =~= prev);
                        assert(entry_views(out@) =~= entry_views(prev).push(
                            registry@[k as int].glob@,
                        ));
                        assert(registry_globs(registry@.take(k as int + 1), entry@)
                            =~= registry_globs(registry@.take(k as int), entry@).push(
                            registry@[k as int].glob@,
                        ));
                        assert(entry_views(out@) =~= resolve_entries(
                            registry@,
                            evs.take(i as int),
                        ) + registry_globs(registry@.take(k as int + 1), entry@));
                    }
                } else {
                    proof {
                        assert(registry_globs(registry@.take(k as int + 1), entry@)
                            =~= registry_globs(registry@.take(k as int), entry@));
                    }
                }
                k = k + 1;
            }
            if !found {
                proof {
                    assert(!known_type(registry@, entry@));
                    assert(!entry_ok(registry@, evs[i as int]));
                }
                return Err(Error::InvalidFilter);
            }
            proof {
                assert(registry@.take(registry@.len() as int) =~= registry@);
                assert(entry_globs(registry@, entry@) == registry_globs(registry@, entry@));
                assert(known_type(registry@, entry@));
                assert(entry_views(out@) =~= resolve_entries(registry@, evs.take(i as int + 1)));
            }
        }
        i = i + 1;
    }
    proof {
        assert(evs.take(evs.len() as int) =~= evs);
    }
    Ok(out)
}

// ---------------------------------------------------------------------------
// The built filter and its verdict.
// ---------------------------------------------------------------------------

/// The resolved filter: the globs selection and negation stand for, plus
/// the two walk toggles.
#[derive(Debug)]
pub struct FilterRules {
    /// Allow-list globs; empty means every type passes.
    pub selected_globs: Vec<Vec<u8>>,
    /// Deny-list globs; a match here always excludes the file.
    pub negated_globs: Vec<Vec<u8>>,
    /// The walk should respect VCS-ignore rules.
    pub respect_vcs_ignore: bool,
    /// The walk should skip hidden (dot-prefixed) entries.
    pub skip_hidden: bool,
}

/// Build the filter from the settings: resolve selections, then negations,
/// and record the walk toggles. Fails with `InvalidFilter` exactly when a
/// list holds a glob that does not compile or a type name the registry
/// does not know.
pub fn build_rules(settings: &Settings, registry: &Vec<FileType>) -> (r: Result<
    FilterRules,
    Error,
>)
    ensures
        r is Ok <==> entries_ok(registry@, entry_views(settings.selected_file_types@))
            && entries_ok(registry@, entry_views(settings.ignored_file_types@)),
        r is Ok ==> ({
            let rules = r.unwrap();
            &&& entry_views(rules.selected_globs@) == resolve_entries(
                registry@,
                entry_views(settings.selected_file_types@),
            )
            &&& entry_views(rules.negated_globs@) == resolve_entries(
                registry@,
                entry_views(settings.ignored_file_types@),
            )
            &&& rules.respect_vcs_ignore == !settings.ignored
            &&& rules.skip_hidden == !settings.hidden
        }),
        r is Err ==> r.unwrap_err() == Error::InvalidFilter,
{
    let selected_globs = match resolve_list(&settings.selected_file_types, registry) {
        Ok(g) => g,
        Err(e) => {
            return Err(e);
        },
    };
    let negated_globs = match resolve_list(&settings.ignored_file_types, registry) {
        Ok(g) => g,
        Err(e) => {
            return Err(e);
        },
    };
    Ok(
        FilterRules {
            selected_globs,
            negated_globs,
            respect_vcs_ignore: !settings.ignored,
            skip_hidden: !settings.hidden,
        },
    )
}

/// Some glob of the list is well-formed and matches the name.
pub open spec fn matches_any(globs: Seq<Seq<u8>>, name: Seq<u8>) -> bool {
    exists|i: int|
        0 <= i < globs.len() && glob_ok(#[trigger] globs[i]) && glob_matches(globs[i], name)
}

/// The filter's verdict on a file name: a negated glob always excludes;
/// otherwise, with any selection present, only a selected glob admits;
/// with no selection everything passes.
pub open spec fn spec_eligible(selected: Seq<Seq<u8>>, negated: Seq<Seq<u8>>, name: Seq<
    u8,
>) -> bool {
    if matches_any(negated, name) {
        false
    } else if selected.len() > 0 {
        matches_any(selected, name)
    } else {
        true
    }
}

/// Does any glob of the list match the name? A glob that does not compile
/// matches nothing.
fn matches_any_exec(globs: &Vec<Vec<u8>>, name: &Vec<u8>) -> (r: bool)
    ensures
        r == matches_any(entry_views(globs@), name@),
{
    let mut i: usize = 0;
    while i < globs.len()
        invariant
            i <= globs.len(),
            forall|k: int|
                0 <= k < i ==> !(glob_ok(#[trigger] entry_views(globs@)[k]) && glob_matches(
                    entry_views(globs@)[k],
                    name@,
                )),
        decreases globs.len() - i,
    {
        proof {
            assert(entry_views(globs@)[i as int] == globs@[i as int]@);
        }
        match glob_match(&globs[i], name) {
            Some(true) => {
                return true;
            },
            _ => {},
        }
        i = i + 1;
    }
    false
}

/// The filter's verdict on one file name.
pub fn eligible(rules: &FilterRules, name: &Vec<u8>) -> (r: bool)
    ensures
        r == spec_eligible(
            entry_views(rules.selected_globs@),
            entry_views(rules.negated_globs@),
            name@,
        ),
{
    if matches_any_exec(&rules.negated_globs, name) {
        return false;
    }
    if rules.selected_globs.len() > 0 {
        return matches_any_exec(&rules.selected_globs, name);
    }
    true
}

// ---------------------------------------------------------------------------
// The base registry.
// ---------------------------------------------------------------------------

/// One registry row from two string literals.
fn file_type(name: &str, glob: &str) -> (r: FileType)
    ensures
        r.name@ == name.spec_bytes(),
        r.glob@ == glob.spec_bytes(),
{
    FileType { name: name.as_bytes_vec(), glob: glob.as_bytes_vec() }
}

/// The (name, glob) pairs a registry holds, in order.
pub open spec fn table_view(reg: Seq<FileType>) -> Seq<(Seq<u8>, Seq<u8>)> {
    reg.map_values(|ft: FileType| (ft.name@, ft.glob@))
}

// The registry rows stand in alphabetical chunks, each built and pinned
// by its own small function, so no single proof has to index the whole
// table at once.

/// Registry rows, first chunk.
pub open spec fn spec_rows_a() -> Seq<(Seq<u8>, Seq<u8>)> {
    seq![
        (("asm").spec_bytes(), ("*.asm").spec_bytes()),
        (("asm").spec_bytes(), ("*.s").spec_bytes()),
        (("asm").spec_bytes(), ("*.S").spec_bytes()),
        (("c").spec_bytes(), ("*.[chH]").spec_bytes()),
        (("c").spec_bytes(), ("*.[chH].in").spec_bytes()),
        (("c").spec_bytes(), ("*.cats").spec_bytes()),
        (("cmake").spec_bytes(), ("*.cmake").spec_bytes()),
        (("cmake").spec_bytes(), ("CMakeLists.txt").spec_bytes()),
        (("cpp").spec_bytes(), ("*.[ChH]").spec_bytes()),
        (("cpp").spec_bytes(), ("*.cc").spec_bytes()),
        (("cpp").spec_bytes(), ("*.[ch]pp").spec_bytes()),
        (("cpp").spec_bytes(), ("*.[ch]xx").spec_bytes()),
        (("cpp").spec_bytes(), ("*.hh").spec_bytes()),
        (("cpp").spec_bytes(), ("*.inl").spec_bytes()),
        (("cpp").spec_bytes(), ("*.[ChH].in").spec_bytes()),
        (("cpp").spec_bytes(), ("*.cc.in").spec_bytes()),
        (("cpp").spec_bytes(), ("*.[ch]pp.in").spec_bytes()),
        (("cpp").spec_bytes(), ("*.[ch]xx.in").spec_bytes()),
        (("cpp").spec_bytes(), ("*.hh.in").spec_bytes()),
        (("csharp").spec_bytes(), ("*.cs").spec_bytes()),
        (("css").spec_bytes(), ("*.css").spec_bytes()),
        (("css").spec_bytes(), ("*.scss").spec_bytes()),
        (("csv").spec_bytes(), ("*.csv").spec_bytes()),
        (("dart").spec_bytes(), ("*.dart").spec_bytes()),
    ]
}

fn rows_a() -> (r: Vec<FileType>)
    ensures
        table_view(r@) == spec_rows_a(),
{
    let mut r: Vec<FileType> = Vec::new();
    r.push(file_type("asm", "*.asm"));
    r.push(file_type("asm", "*.s"));
    r.push(file_type("asm", "*.S"));
    r.push(file_type("c", "*.[chH]"));
    r.push(file_type("c", "*.[chH].in"));
    r.push(file_type("c", "*.cats"));
    r.push(file_type("cmake", "*.cmake"));
    r.push(file_type("cmake", "CMakeLists.txt"));
    r.push(file_type("cpp", "*.[ChH]"));
    r.push(file_type("cpp", "*.cc"));
    r.push(file_type("cpp", "*.[ch]pp"));
    r.push(file_type("cpp", "*.[ch]xx"));
    r.push(file_type("cpp", "*.hh"));
    r.push(file_type("cpp", "*.inl"));
    r.push(file_type("cpp", "*.[ChH].in"));
    r.push(file_type("cpp", "*.cc.in"));
    r.push(file_type("cpp", "*.[ch]pp.in"));
    r.push(file_type("cpp", "*.[ch]xx.in"));
    r.push(file_type("cpp", "*.hh.in"));
    r.push(file_type("csharp", "*.cs"));
    r.push(file_type("css", "*.css"));
    r.push(file_type("css", "*.scss"));
    r.push(file_type("csv", "*.csv"));
    r.push(file_type("dart", "*.dart"));
    proof {
        assert(table_view(r@) =~= spec_rows_a());
    }
    r
}

pub open spec fn spec_rows_b() -> Seq<(Seq<u8>, Seq<u8>)> {
    seq![
        (("docker").spec_bytes(), ("*Dockerfile*").spec_bytes()),
        (("elixir").spec_bytes(), ("*.ex").spec_bytes()),
        (("elixir").spec_bytes(), ("*.eex").spec_bytes()),
        (("elixir").spec_bytes(), ("*.exs").spec_bytes()),
        (("elixir").spec_bytes(), ("*.heex").spec_bytes()),
        (("elixir").spec_bytes(), ("*.leex").spec_bytes()),
        (("elixir").spec_bytes(), ("*.livemd").spec_bytes()),
        (("erlang").spec_bytes(), ("*.erl").spec_bytes()),
        (("erlang").spec_bytes(), ("*.hrl").spec_bytes()),
        (("go").spec_bytes(), ("*.go").spec_bytes()),
        (("h").spec_bytes(), ("*.h").spec_bytes()),
        (("h").spec_bytes(), ("*.hh").spec_bytes()),
        (("h").spec_bytes(), ("*.hpp").spec_bytes()),
        (("hs").spec_bytes(), ("*.hs").spec_bytes()),
        (("hs").spec_bytes(), ("*.lhs").spec_bytes()),
        (("html").spec_bytes(), ("*.htm").spec_bytes()),
        (("html").spec_bytes(), ("*.html").spec_bytes()),
        (("html").spec_bytes(), ("*.ejs").spec_bytes()),
        (("java").spec_bytes(), ("*.java").spec_bytes()),
        (("java").spec_bytes(), ("*.jsp").spec_bytes()),
        (("java").spec_bytes(), ("*.jspx").spec_bytes()),
        (("java").spec_bytes(), ("*.properties").spec_bytes()),
        (("js").spec_bytes(), ("*.js").spec_bytes()),
        (("js").spec_bytes(), ("*.jsx").spec_bytes()),
    ]
}

fn rows_b() -> (r: Vec<FileType>)
    ensures
        table_view(r@) == spec_rows_b(),
{
    let mut r: Vec<FileType> = Vec::new();
    r.push(file_type("docker", "*Dockerfile*"));
    r.push(file_type("elixir", "*.ex"));
    r.push(file_type("elixir", "*.eex"));
    r.push(file_type("elixir", "*.exs"));
    r.push(file_type("elixir", "*.heex"));
    r.push(file_type("elixir", "*.leex"));
    r.push(file_type("elixir", "*.livemd"));
    r.push(file_type("erlang", "*.erl"));
    r.push(file_type("erlang", "*.hrl"));
    r.push(file_type("go", "*.go"));
    r.push(file_type("h", "*.h"));
    r.push(file_type("h", "*.hh"));
    r.push(file_type("h", "*.hpp"));
    r.push(file_type("hs", "*.hs"));
    r.push(file_type("hs", "*.lhs"));
    r.push(file_type("html", "*.htm"));
    r.push(file_type("html", "*.html"));
    r.push(file_type("html", "*.ejs"));
    r.push(file_type("java", "*.java"));
    r.push(file_type("java", "*.jsp"));
    r.push(file_type("java", "*.jspx"));
    r.push(file_type("java", "*.properties"));
    r.push(file_type("js", "*.js"));
    r.push(file_type("js", "*.jsx"));
    proof {
        assert(table_view(r@) =~= spec_rows_b());
    }
    r
}

pub open spec fn spec_rows_c() -> Seq<(Seq<u8>, Seq<u8>)> {
    seq![
        (("js").spec_bytes(), ("*.vue").spec_bytes()),
        (("js").spec_bytes(), ("*.cjs").spec_bytes()),
        (("js").spec_bytes(), ("*.mjs").spec_bytes()),
        (("json").spec_bytes(), ("*.json").spec_bytes()),
        (("json").spec_bytes(), ("composer.lock").spec_bytes()),
        (("json").spec_bytes(), ("*.sarif").spec_bytes()),
        (("julia").spec_bytes(), ("*.jl").spec_bytes()),
        (("kotlin").spec_bytes(), ("*.kt").spec_bytes()),
        (("kotlin").spec_bytes(), ("*.kts").spec_bytes()),
        (("lua").spec_bytes(), ("*.lua").spec_bytes()),
        (("markdown").spec_bytes(), ("*.markdown").spec_bytes()),
        (("markdown").spec_bytes(), ("*.md").spec_bytes()),
        (("markdown").spec_bytes(), ("*.mdown").spec_bytes()),
        (("markdown").spec_bytes(), ("*.mdwn").spec_bytes()),
        (("markdown").spec_bytes(), ("*.mkd").spec_bytes()),
        (("markdown").spec_bytes(), ("*.mkdn").spec_bytes()),
        (("markdown").spec_bytes(), ("*.mdx").spec_bytes()),
        (("md").spec_bytes(), ("*.markdown").spec_bytes()),
        (("md").spec_bytes(), ("*.md").spec_bytes()),
        (("md").spec_bytes(), ("*.mdown").spec_bytes()),
        (("md").spec_bytes(), ("*.mdwn").spec_bytes()),
        (("md").spec_bytes(), ("*.mkd").spec_bytes()),
        (("md").spec_bytes(), ("*.mkdn").spec_bytes()),
        (("md").spec_bytes(), ("*.mdx").spec_bytes()),
    ]
}

fn rows_c() -> (r: Vec<FileType>)
    ensures
        table_view(r@) == spec_rows_c(),
{
    let mut r: Vec<FileType> = Vec::new();
    r.push(file_type("js", "*.vue"));
    r.push(file_type("js", "*.cjs"));
    r.push(file_type("js", "*.mjs"));
    r.push(file_type("json", "*.json"));
    r.push(file_type("json", "composer.lock"));
    r.push(file_type("json", "*.sarif"));
    r.push(file_type("julia", "*.jl"));
    r.push(file_type("kotlin", "*.kt"));
    r.push(file_type("kotlin", "*.kts"));
    r.push(file_type("lua", "*.lua"));
    r.push(file_type("markdown", "*.markdown"));
    r.push(file_type("markdown", "*.md"));
    r.push(file_type("markdown", "*.mdown"));
    r.push(file_type("markdown", "*.mdwn"));
    r.push(file_type("markdown", "*.mkd"));
    r.push(file_type("markdown", "*.mkdn"));
    r.push(file_type("markdown", "*.mdx"));
    r.push(file_type("md", "*.markdown"));
    r.push(file_type("md", "*.md"));
    r.push(file_type("md", "*.mdown"));
    r.push(file_type("md", "*.mdwn"));
    r.push(file_type("md", "*.mkd"));
    r.push(file_type("md", "*.mkdn"));
    r.push(file_type("md", "*.mdx"));
    proof {
        assert(table_view(r@) =~= spec_rows_c());
    }
    r
}

pub open spec fn spec_rows_d() -> Seq<(Seq<u8>, Seq<u8>)> {
    seq![
        (("ocaml").spec_bytes(), ("*.ml").spec_bytes()),
        (("ocaml").spec_bytes(), ("*.mli").spec_bytes()),
        (("ocaml").spec_bytes(), ("*.mll").spec_bytes()),
        (("ocaml").spec_bytes(), ("*.mly").spec_bytes()),
        (("perl").spec_bytes(), ("*.perl").spec_bytes()),
        (("perl").spec_bytes(), ("*.pl").spec_bytes()),
        (("perl").spec_bytes(), ("*.PL").spec_bytes()),
        (("perl").spec_bytes(), ("*.plh").spec_bytes()),
        (("perl").spec_bytes(), ("*.plx").spec_bytes()),
        (("perl").spec_bytes(), ("*.pm").spec_bytes()),
        (("perl").spec_bytes(), ("*.t").spec_bytes()),
        (("php").spec_bytes(), ("*.php").spec_bytes()),
        (("php").spec_bytes(), ("*.php3").spec_bytes()),
        (("php").spec_bytes(), ("*.php4").spec_bytes()),
        (("php").spec_bytes(), ("*.php5").spec_bytes()),
        (("php").spec_bytes(), ("*.php7").spec_bytes()),
        (("php").spec_bytes(), ("*.php8").spec_bytes()),
        (("php").spec_bytes(), ("*.pht").spec_bytes()),
        (("php").spec_bytes(), ("*.phtml").spec_bytes()),
        (("py").spec_bytes(), ("*.py").spec_bytes()),
        (("py").spec_bytes(), ("*.pyi").spec_bytes()),
        (("python").spec_bytes(), ("*.py").spec_bytes()),
        (("python").spec_bytes(), ("*.pyi").spec_bytes()),
        (("r").spec_bytes(), ("*.R").spec_bytes()),
    ]
}

fn rows_d() -> (r: Vec<FileType>)
    ensures
        table_view(r@) == spec_rows_d(),
{
    let mut r: Vec<FileType> = Vec::new();
    r.push(file_type("ocaml", "*.ml"));
    r.push(file_type("ocaml", "*.mli"));
    r.push(file_type("ocaml", "*.mll"));
    r.push(file_type("ocaml", "*.mly"));
    r.push(file_type("perl", "*.perl"));
    r.push(file_type("perl", "*.pl"));
    r.push(file_type("perl", "*.PL"));
    r.push(file_type("perl", "*.plh"));
    r.push(file_type("perl", "*.plx"));
    r.push(file_type("perl", "*.pm"));
    r.push(file_type("perl", "*.t"));
    r.push(file_type("php", "*.php"));
    r.push(file_type("php", "*.php3"));
    r.push(file_type("php", "*.php4"));
    r.push(file_type("php", "*.php5"));
    r.push(file_type("php", "*.php7"));
    r.push(file_type("php", "*.php8"));
    r.push(file_type("php", "*.pht"));
    r.push(file_type("php", "*.phtml"));
    r.push(file_type("py", "*.py"));
    r.push(file_type("py", "*.pyi"));
    r.push(file_type("python", "*.py"));
    r.push(file_type("python", "*.pyi"));
    r.push(file_type("r", "*.R"));
    proof {
        assert(table_view(r@) =~= spec_rows_d());
    }
    r
}

pub open spec fn spec_rows_e() -> Seq<(Seq<u8>, Seq<u8>)> {
    seq![
        (("r").spec_bytes(), ("*.r").spec_bytes()),
        (("r").spec_bytes(), ("*.Rmd").spec_bytes()),
        (("r").spec_bytes(), ("*.rmd").spec_bytes()),
        (("r").spec_bytes(), ("*.Rnw").spec_bytes()),
        (("r").spec_bytes(), ("*.rnw").spec_bytes()),
        (("ruby").spec_bytes(), ("config.ru").spec_bytes()),
        (("ruby").spec_bytes(), ("Gemfile").spec_bytes()),
        (("ruby").spec_bytes(), (".irbrc").spec_bytes()),
        (("ruby").spec_bytes(), ("Rakefile").spec_bytes()),
        (("ruby").spec_bytes(), ("*.gemspec").spec_bytes()),
        (("ruby").spec_bytes(), ("*.rb").spec_bytes()),
        (("ruby").spec_bytes(), ("*.rbw").spec_bytes()),
        (("ruby").spec_bytes(), ("*.rake").spec_bytes()),
        (("rust").spec_bytes(), ("*.rs").spec_bytes()),
        (("scala").spec_bytes(), ("*.scala").spec_bytes()),
        (("scala").spec_bytes(), ("*.sbt").spec_bytes()),
        (("sh").spec_bytes(), (".env").spec_bytes()),
        (("sh").spec_bytes(), (".login").spec_bytes()),
        (("sh").spec_bytes(), (".logout").spec_bytes()),
        (("sh").spec_bytes(), (".profile").spec_bytes()),
        (("sh").spec_bytes(), ("profile").spec_bytes()),
        (("sh").spec_bytes(), (".bash_login").spec_bytes()),
        (("sh").spec_bytes(), ("bash_login").spec_bytes()),
        (("sh").spec_bytes(), (".bash_logout").spec_bytes()),
    ]
}

fn rows_e() -> (r: Vec<FileType>)
    ensures
        table_view(r@) == spec_rows_e(),
{
    let mut r: Vec<FileType> = Vec::new();
    r.push(file_type("r", "*.r"));
    r.push(file_type("r", "*.Rmd"));
    r.push(file_type("r", "*.rmd"));
    r.push(file_type("r", "*.Rnw"));
    r.push(file_type("r", "*.rnw"));
    r.push(file_type("ruby", "config.ru"));
    r.push(file_type("ruby", "Gemfile"));
    r.push(file_type("ruby", ".irbrc"));
    r.push(file_type("ruby", "Rakefile"));
    r.push(file_type("ruby", "*.gemspec"));
    r.push(file_type("ruby", "*.rb"));
    r.push(file_type("ruby", "*.rbw"));
    r.push(file_type("ruby", "*.rake"));
    r.push(file_type("rust", "*.rs"));
    r.push(file_type("scala", "*.scala"));
    r.push(file_type("scala", "*.sbt"));
    r.push(file_type("sh", ".env"));
    r.push(file_type("sh", ".login"));
    r.push(file_type("sh", ".logout"));
    r.push(file_type("sh", ".profile"));
    r.push(file_type("sh", "profile"));
    r.push(file_type("sh", ".bash_login"));
    r.push(file_type("sh", "bash_login"));
    r.push(file_type("sh", ".bash_logout"));
    proof {
        assert(table_view(r@) =~= spec_rows_e());
    }
    r
}

pub open spec fn spec_rows_f() -> Seq<(Seq<u8>, Seq<u8>)> {
    seq![
        (("sh").spec_bytes(), ("bash_logout").spec_bytes()),
        (("sh").spec_bytes(), (".bash_profile").spec_bytes()),
        (("sh").spec_bytes(), ("bash_profile").spec_bytes()),
        (("sh").spec_bytes(), (".bashrc").spec_bytes()),
        (("sh").spec_bytes(), ("bashrc").spec_bytes()),
        (("sh").spec_bytes(), ("*.bashrc").spec_bytes()),
        (("sh").spec_bytes(), (".cshrc").spec_bytes()),
        (("sh").spec_bytes(), ("*.cshrc").spec_bytes()),
        (("sh").spec_bytes(), (".kshrc").spec_bytes()),
        (("sh").spec_bytes(), ("*.kshrc").spec_bytes()),
        (("sh").spec_bytes(), (".tcshrc").spec_bytes()),
        (("sh").spec_bytes(), (".zshenv").spec_bytes()),
        (("sh").spec_bytes(), ("zshenv").spec_bytes()),
        (("sh").spec_bytes(), (".zlogin").spec_bytes()),
        (("sh").spec_bytes(), ("zlogin").spec_bytes()),
        (("sh").spec_bytes(), (".zlogout").spec_bytes()),
        (("sh").spec_bytes(), ("zlogout").spec_bytes()),
        (("sh").spec_bytes(), (".zprofile").spec_bytes()),
        (("sh").spec_bytes(), ("zprofile").spec_bytes()),
        (("sh").spec_bytes(), (".zshrc").spec_bytes()),
        (("sh").spec_bytes(), ("zshrc").spec_bytes()),
        (("sh").spec_bytes(), ("*.bash").spec_bytes()),
        (("sh").spec_bytes(), ("*.csh").spec_bytes()),
        (("sh").spec_bytes(), ("*.env").spec_bytes()),
    ]
}

fn rows_f() -> (r: Vec<FileType>)
    ensures
        table_view(r@) == spec_rows_f(),
{
    let mut r: Vec<FileType> = Vec::new();
    r.push(file_type("sh", "bash_logout"));
    r.push(file_type("sh", ".bash_profile"));
    r.push(file_type("sh", "bash_profile"));
    r.push(file_type("sh", ".bashrc"));
    r.push(file_type("sh", "bashrc"));
    r.push(file_type("sh", "*.bashrc"));
    r.push(file_type("sh", ".cshrc"));
    r.push(file_type("sh", "*.cshrc"));
    r.push(file_type("sh", ".kshrc"));
    r.push(file_type("sh", "*.kshrc"));
    r.push(file_type("sh", ".tcshrc"));
    r.push(file_type("sh", ".zshenv"));
    r.push(file_type("sh", "zshenv"));
    r.push(file_type("sh", ".zlogin"));
    r.push(file_type("sh", "zlogin"));
    r.push(file_type("sh", ".zlogout"));
    r.push(file_type("sh", "zlogout"));
    r.push(file_type("sh", ".zprofile"));
    r.push(file_type("sh", "zprofile"));
    r.push(file_type("sh", ".zshrc"));
    r.push(file_type("sh", "zshrc"));
    r.push(file_type("sh", "*.bash"));
    r.push(file_type("sh", "*.csh"));
    r.push(file_type("sh", "*.env"));
    proof {
        assert(table_view(r@) =~= spec_rows_f());
    }
    r
}

pub open spec fn spec_rows_g() -> Seq<(Seq<u8>, Seq<u8>)> {
    seq![
        (("sh").spec_bytes(), ("*.ksh").spec_bytes()),
        (("sh").spec_bytes(), ("*.sh").spec_bytes()),
        (("sh").spec_bytes(), ("*.tcsh").spec_bytes()),
        (("sh").spec_bytes(), ("*.zsh").spec_bytes()),
        (("sql").spec_bytes(), ("*.sql").spec_bytes()),
        (("sql").spec_bytes(), ("*.psql").spec_bytes()),
        (("swift").spec_bytes(), ("*.swift").spec_bytes()),
        (("tex").spec_bytes(), ("*.tex").spec_bytes()),
        (("tex").spec_bytes(), ("*.ltx").spec_bytes()),
        (("tex").spec_bytes(), ("*.cls").spec_bytes()),
        (("tex").spec_bytes(), ("*.sty").spec_bytes()),
        (("tex").spec_bytes(), ("*.bib").spec_bytes()),
        (("tex").spec_bytes(), ("*.dtx").spec_bytes()),
        (("tex").spec_bytes(), ("*.ins").spec_bytes()),
        (("toml").spec_bytes(), ("*.toml").spec_bytes()),
        (("toml").spec_bytes(), ("Cargo.lock").spec_bytes()),
        (("ts").spec_bytes(), ("*.ts").spec_bytes()),
        (("ts").spec_bytes(), ("*.tsx").spec_bytes()),
        (("ts").spec_bytes(), ("*.cts").spec_bytes()),
        (("ts").spec_bytes(), ("*.mts").spec_bytes()),
        (("typescript").spec_bytes(), ("*.ts").spec_bytes()),
        (("typescript").spec_bytes(), ("*.tsx").spec_bytes()),
        (("typescript").spec_bytes(), ("*.cts").spec_bytes()),
        (("typescript").spec_bytes(), ("*.mts").spec_bytes()),
    ]
}

fn rows_g() -> (r: Vec<FileType>)
    ensures
        table_view(r@) == spec_rows_g(),
{
    let mut r: Vec<FileType> = Vec::new();
    r.push(file_type("sh", "*.ksh"));
    r.push(file_type("sh", "*.sh"));
    r.push(file_type("sh", "*.tcsh"));
    r.push(file_type("sh", "*.zsh"));
    r.push(file_type("sql", "*.sql"));
    r.push(file_type("sql", "*.psql"));
    r.push(file_type("swift", "*.swift"));
    r.push(file_type("tex", "*.tex"));
    r.push(file_type("tex", "*.ltx"));
    r.push(file_type("tex", "*.cls"));
    r.push(file_type("tex", "*.sty"));
    r.push(file_type("tex", "*.bib"));
    r.push(file_type("tex", "*.dtx"));
    r.push(file_type("tex", "*.ins"));
    r.push(file_type("toml", "*.toml"));
    r.push(file_type("toml", "Cargo.lock"));
    r.push(file_type("ts", "*.ts"));
    r.push(file_type("ts", "*.tsx"));
    r.push(file_type("ts", "*.cts"));
    r.push(file_type("ts", "*.mts"));
    r.push(file_type("typescript", "*.ts"));
    r.push(file_type("typescript", "*.tsx"));
    r.push(file_type("typescript", "*.cts"));
    r.push(file_type("typescript", "*.mts"));
    proof {
        assert(table_view(r@) =~= spec_rows_g());
    }
    r
}

pub open spec fn spec_rows_h() -> Seq<(Seq<u8>, Seq<u8>)> {
    seq![
        (("txt").spec_bytes(), ("*.txt").spec_bytes()),
        (("vim").spec_bytes(), ("*.vim").spec_bytes()),
        (("vim").spec_bytes(), (".vimrc").spec_bytes()),
        (("vim").spec_bytes(), (".gvimrc").spec_bytes()),
        (("vim").spec_bytes(), ("vimrc").spec_bytes()),
        (("vim").spec_bytes(), ("gvimrc").spec_bytes()),
        (("vim").spec_bytes(), ("_vimrc").spec_bytes()),
        (("vim").spec_bytes(), ("_gvimrc").spec_bytes()),
        (("xml").spec_bytes(), ("*.xml").spec_bytes()),
        (("xml").spec_bytes(), ("*.xml.dist").spec_bytes()),
        (("xml").spec_bytes(), ("*.dtd").spec_bytes()),
        (("xml").spec_bytes(), ("*.xsl").spec_bytes()),
        (("xml").spec_bytes(), ("*.xslt").spec_bytes()),
        (("xml").spec_bytes(), ("*.xsd").spec_bytes()),
        (("xml").spec_bytes(), ("*.xjb").spec_bytes()),
        (("xml").spec_bytes(), ("*.rng").spec_bytes()),
        (("xml").spec_bytes(), ("*.sch").spec_bytes()),
        (("xml").spec_bytes(), ("*.xhtml").spec_bytes()),
        (("yaml").spec_bytes(), ("*.yaml").spec_bytes()),
        (("yaml").spec_bytes(), ("*.yml").spec_bytes()),
        (("zig").spec_bytes(), ("*.zig").spec_bytes()),
    ]
}

fn rows_h() -> (r: Vec<FileType>)
    ensures
        table_view(r@) == spec_rows_h(),
{
    let mut r: Vec<FileType> = Vec::new();
    r.push(file_type("txt", "*.txt"));
    r.push(file_type("vim", "*.vim"));
    r.push(file_type("vim", ".vimrc"));
    r.push(file_type("vim", ".gvimrc"));
    r.push(file_type("vim", "vimrc"));
    r.push(file_type("vim", "gvimrc"));
    r.push(file_type("vim", "_vimrc"));
    r.push(file_type("vim", "_gvimrc"));
    r.push(file_type("xml", "*.xml"));
    r.push(file_type("xml", "*.xml.dist"));
    r.push(file_type("xml", "*.dtd"));
    r.push(file_type("xml", "*.xsl"));
    r.push(file_type("xml", "*.xslt"));
    r.push(file_type("xml", "*.xsd"));
    r.push(file_type("xml", "*.xjb"));
    r.push(file_type("xml", "*.rng"));
    r.push(file_type("xml", "*.sch"));
    r.push(file_type("xml", "*.xhtml"));
    r.push(file_type("yaml", "*.yaml"));
    r.push(file_type("yaml", "*.yml"));
    r.push(file_type("zig", "*.zig"));
    proof {
        assert(table_view(r@) =~= spec_rows_h());
    }
    r
}

/// The rows of the base registry, as (type name, glob) pairs. They follow
/// the common rows of the walker crate's own default type table.
pub open spec fn spec_default_rows() -> Seq<(Seq<u8>, Seq<u8>)> {
    spec_rows_a() + spec_rows_b() + spec_rows_c() + spec_rows_d() + spec_rows_e() + spec_rows_f() + spec_rows_g() + spec_rows_h()
}

/// The base registry of well-known file-type-to-glob mappings.
pub fn default_file_types() -> (r: Vec<FileType>)
    ensures
        table_view(r@) == spec_default_rows(),
{
    let mut r: Vec<FileType> = rows_a();
    let mut part_b = rows_b();
    let ghost before_b = r@;
    let ghost chunk_b = part_b@;
    r.append(&mut part_b);
    proof {
        assert(table_view(before_b + chunk_b) =~= table_view(before_b)
            + table_view(chunk_b));
    }
    let mut part_c = rows_c();
    let ghost before_c = r@;
    let ghost chunk_c = part_c@;
    r.append(&mut part_c);
    proof {
        assert(table_view(before_c + chunk_c) =~= table_view(before_c)
            + table_view(chunk_c));
    }
    let mut part_d = rows_d();
    let ghost before_d = r@;
    let ghost chunk_d = part_d@;
    r.append(&mut part_d);
    proof {
        assert(table_view(before_d + chunk_d) =~= table_view(before_d)
            + table_view(chunk_d));
    }
    let mut part_e = rows_e();
    let ghost before_e = r@;
    let ghost chunk_e = part_e@;
    r.append(&mut part_e);
    proof {
        assert(table_view(before_e + chunk_e) =~= table_view(before_e)
            + table_view(chunk_e));
    }
    let mut part_f = rows_f();
    let ghost before_f = r@;
    let ghost chunk_f = part_f@;
    r.append(&mut part_f);
    proof {
        assert(table_view(before_f + chunk_f) =~= table_view(before_f)
            + table_view(chunk_f));
    }
    let mut part_g = rows_g();
    let ghost before_g = r@;
    let ghost chunk_g = part_g@;
    r.append(&mut part_g);
    proof {
        assert(table_view(before_g + chunk_g) =~= table_view(before_g)
            + table_view(chunk_g));
    }
    let mut part_h = rows_h();
    let ghost before_h = r@;
    let ghost chunk_h = part_h@;
    r.append(&mut part_h);
    proof {
        assert(table_view(before_h + chunk_h) =~= table_view(before_h)
            + table_view(chunk_h));
    }
    proof {
        assert(table_view(r@) =~= spec_default_rows());
    }
    r
}

} // verus!
