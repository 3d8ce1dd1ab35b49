//! Where in the source files each module is declared.

use vstd::prelude::*;
use crate::result::Location;

verus! {

#[verifier::external_type_specification]
#[verifier::external_body]
pub struct ExRegex(regex::Regex);

/// Whether `regex::Regex::new` accepts `pattern`.
pub uninterp spec fn regex_compiles(pattern: Seq<char>) -> bool;

/// Whether the regular expression `pattern` matches somewhere in `haystack`,
/// by the `regex` crate's (Unicode) semantics.
pub uninterp spec fn regex_matches(pattern: Seq<char>, haystack: Seq<char>) -> bool;

/// The regular expression of a declaration of module `module_name`:
/// `module .*::<module_name>([{\s]|$)`, that is the word `module`, any
/// address, `::`, the name, and then a brace, a white space or the line's end.
pub open spec fn module_pattern_of(module_name: Seq<char>) -> Seq<char> {
    "module .*::"@ + module_name + "([{\\s]|$)"@
}

/// A declaration pattern can be built for module `module_name`.
pub open spec fn module_pattern_compiles(module_name: Seq<char>) -> bool {
    regex_compiles(module_pattern_of(module_name))
}

/// `line` declares module `module_name`.
pub open spec fn declares_module(module_name: Seq<char>, line: Seq<char>) -> bool {
    regex_matches(module_pattern_of(module_name), line)
}

/// The regular expression of a declaration of module `module_name`.
pub fn module_pattern(module_name: &str) -> (p: String)
    ensures
        p@ == module_pattern_of(module_name@),
{
    let mut p = "module .*::".to_owned();
    p.append(module_name);
    p.append("([{\\s]|$)");
    p
}

/// A compiled regular expression, with the pattern it was compiled from.
pub struct CompiledRegex {
    pattern: String,
    regex: regex::Regex,
}

impl View for CompiledRegex {
    type V = Seq<char>;

    closed spec fn view(&self) -> Seq<char> {
        self.pattern@
    }
}

/// `regex::Regex::new(pattern)`. Claimed: a regex comes back exactly when
/// `Regex::new` accepts the pattern, and it is tagged with that pattern.
#[verifier::external_body]
fn compile_regex(pattern: &str) -> (r: Option<CompiledRegex>)
    ensures
        r is Some <==> regex_compiles(pattern@),
        r matches Some(c) ==> c@ == pattern@,
{
    match regex::Regex::new(pattern) {
        Ok(regex) => Some(CompiledRegex { pattern: pattern.to_string(), regex }),
        Err(_) => None,
    }
}

/// `regex::Regex::is_match` on `haystack`. Claimed: the answer is the one
/// that `regex_matches` names for the regex's pattern and the haystack.
#[verifier::external_body]
fn regex_is_match(re: &CompiledRegex, haystack: &str) -> (r: bool)
    ensures
        r == regex_matches(re@, haystack@),
{
    re.regex.is_match(haystack)
}

/// A source file, read line by line; a line that could not be read is `None`.
#[derive(Clone, Debug)]
pub struct SourceFile {
    pub path: String,
    pub lines: Vec<Option<String>>,
}

/// Line `line` declares module `m`.
pub open spec fn line_declares(m: Seq<char>, line: Option<String>) -> bool {
    line matches Some(l) && declares_module(m, l@)
}

/// The first line at index `i` or later that declares `m`.
pub open spec fn first_declaring_line_from(m: Seq<char>, lines: Seq<Option<String>>, i: int) -> Option<int>
    decreases lines.len() - i,
{
    if i < 0 || i >= lines.len() {
        None
    } else if line_declares(m, lines[i]) {
        Some(i)
    } else {
        first_declaring_line_from(m, lines, i + 1)
    }
}

/// The index of the first line of `lines` that declares `m`.
pub open spec fn first_declaring_line(m: Seq<char>, lines: Seq<Option<String>>) -> Option<int> {
    first_declaring_line_from(m, lines, 0)
}

pub open spec fn file_declares(m: Seq<char>, file: SourceFile) -> bool {
    first_declaring_line(m, file.lines@) is Some
}

/// The first file at index `f` or later, not yet claimed by a module, that declares `m`.
pub open spec fn first_unclaimed_declaring_file(m: Seq<char>, files: Seq<SourceFile>, claimed: Seq<usize>, f: int) -> Option<int>
    decreases files.len() - f,
{
    if f < 0 || f >= files.len() {
        None
    } else if !claimed.contains(f as usize) && file_declares(m, files[f]) {
        Some(f)
    } else {
        first_unclaimed_declaring_file(m, files, claimed, f + 1)
    }
}

/// The last of the first `k` claimed files (in the order they were claimed)
/// that declares `m`, as a position in `claimed`.
pub open spec fn last_claimed_declaring(m: Seq<char>, files: Seq<SourceFile>, claimed: Seq<usize>, k: int) -> Option<int>
    decreases k,
{
    if k <= 0 || k > claimed.len() {
        None
    } else if file_declares(m, files[claimed[k - 1] as int]) {
        Some(k - 1)
    } else {
        last_claimed_declaring(m, files, claimed, k - 1)
    }
}

/// Locates module `m`, given the files already claimed: the first unclaimed
/// file that declares it (which it then claims), else the last claimed file
/// that declares it, else nowhere. A location is a file index and a line index.
pub open spec fn locate_step(m: Seq<char>, files: Seq<SourceFile>, claimed: Seq<usize>) -> (Option<(int, int)>, Seq<usize>) {
    match first_unclaimed_declaring_file(m, files, claimed, 0) {
        Some(f) => (Some((f, first_declaring_line(m, files[f].lines@)->0)), claimed.push(f as usize)),
        None => match last_claimed_declaring(m, files, claimed, claimed.len() as int) {
            Some(k) => (Some((claimed[k] as int, first_declaring_line(m, files[claimed[k] as int].lines@)->0)), claimed),
            None => (None, claimed),
        },
    }
}

/// The locations of the first `n` modules of `names`, one after the other,
/// and the files claimed by then.
pub open spec fn locate_prefix(names: Seq<String>, files: Seq<SourceFile>, n: int) -> (Seq<Option<(int, int)>>, Seq<usize>)
    decreases n,
{
    if n <= 0 {
        (Seq::empty(), Seq::empty())
    } else {
        let (locs, claimed) = locate_prefix(names, files, n - 1);
        let (loc, claimed2) = locate_step(names[n - 1]@, files, claimed);
        (locs.push(loc), claimed2)
    }
}

/// The location of each module of `names` in `files`.
pub open spec fn locate_all(names: Seq<String>, files: Seq<SourceFile>) -> Seq<Option<(int, int)>> {
    locate_prefix(names, files, names.len() as int).0
}

/// `loc` is the location `spec_loc` (file index, line index) in `files`,
/// written as the file's path and the line's number counted from 1.
pub open spec fn location_is(loc: Option<Location>, spec_loc: Option<(int, int)>, files: Seq<SourceFile>) -> bool {
    match spec_loc {
        None => loc is None,
        Some((f, l)) => loc matches Some(x) && x.path@ == files[f].path@ && x.line == l + 1,
    }
}

/// A module name that the `regex` crate cannot build a pattern from.
#[derive(Clone, Debug, PartialEq, Eq)]
pub enum LocateError {
    InvalidModulePattern { module_name: String },
}

/// The index of the first line of `lines` that `pattern` matches.
fn first_matching_line(pattern: &CompiledRegex, Ghost(m): Ghost<Seq<char>>, lines: &Vec<Option<String>>) -> (r: Option<usize>)
    requires
        pattern@ == module_pattern_of(m),
    ensures
        r matches Some(i) ==> i < lines.len() && first_declaring_line(m, lines@) == Some(i as int),
        r is None ==> first_declaring_line(m, lines@) is None,
{
    let mut i: usize = 0;
    while i < lines.len()
        invariant
            pattern@ == module_pattern_of(m),
            i <= lines.len(),
            first_declaring_line(m, lines@) == first_declaring_line_from(m, lines@, i as int),
        decreases lines.len() - i,
    {
        match &lines[i] {
            Some(line) => {
                if regex_is_match(pattern, line.as_str()) {
                    return Some(i);
                }
            },
            None => {},
        }
        i = i + 1;
    }
    None
}

fn contains_index(v: &Vec<usize>, x: usize) -> (r: bool)
    ensures
        r == v@.contains(x),
{
    let mut i: usize = 0;
    while i < v.len()
        invariant
            i <= v.len(),
            forall|k: int| 0 <= k < i ==> v@[k] != x,
        decreases v.len() - i,
    {
        if v[i] == x {
            assert(v@[i as int] == x);
            return true;
        }
        i = i + 1;
    }
    false
}

/// The location of module `m`, given the files claimed so far, and the
/// files claimed after it (see `locate_step`).
fn locate_one(pattern: &CompiledRegex, Ghost(m): Ghost<Seq<char>>, files: &Vec<SourceFile>, used: &mut Vec<usize>) -> (r: Option<Location>)
    requires
        pattern@ == module_pattern_of(m),
        forall|k: int| 0 <= k < old(used)@.len() ==> #[trigger] old(used)@[k] < files@.len(),
    ensures
        forall|k: int| 0 <= k < final(used)@.len() ==> #[trigger] final(used)@[k] < files@.len(),
        final(used)@ == locate_step(m, files@, old(used)@).1,
        location_is(r, locate_step(m, files@, old(used)@).0, files@),
{
    let ghost claimed = used@;
    // Files that no module has claimed yet, in order.
    let mut f: usize = 0;
    while f < files.len()
        invariant
            pattern@ == module_pattern_of(m),
            claimed == old(used)@,
            used@ == claimed,
            forall|k: int| 0 <= k < used@.len() ==> #[trigger] used@[k] < files@.len(),
            f <= files.len(),
            first_unclaimed_declaring_file(m, files@, claimed, 0) == first_unclaimed_declaring_file(m, files@, claimed, f as int),
        decreases files.len() - f,
    {
        if !contains_index(used, f) {
            match first_matching_line(pattern, Ghost(m), &files[f].lines) {
                Some(line) => {
                    assert(!claimed.contains(f));
                    assert(file_declares(m, files@[f as int]));
                    assert(first_unclaimed_declaring_file(m, files@, claimed, f as int) == Some(f as int));
                    let path = files[f].path.clone();
                    used.push(f);
                    assert(used@[used@.len() - 1] == f);
                    return Some(Location { path, line: line + 1 });
                },
                None => {},
            }
        }
        f = f + 1;
    }
    assert(first_unclaimed_declaring_file(m, files@, claimed, 0) is None);
    // Files claimed before, in the order they were claimed; the last one wins.
    let mut found: Option<Location> = None;
    let mut k: usize = 0;
    while k < used.len()
        invariant
            pattern@ == module_pattern_of(m),
            claimed == old(used)@,
            used@ == claimed,
            forall|j: int| 0 <= j < used@.len() ==> #[trigger] used@[j] < files@.len(),
            k <= used.len(),
            location_is(found, match last_claimed_declaring(m, files@, claimed, k as int) {
                Some(j) => Some((claimed[j] as int, first_declaring_line(m, files@[claimed[j] as int].lines@)->0)),
                None => None,
            }, files@),
        decreases used.len() - k,
    {
        let f = used[k];
        assert(used@[k as int] < files@.len());
        assert(last_claimed_declaring(m, files@, claimed, k + 1) == if file_declares(m, files@[claimed[k as int] as int]) {
            Some(k as int)
        } else {
            last_claimed_declaring(m, files@, claimed, k as int)
        });
        match first_matching_line(pattern, Ghost(m), &files[f].lines) {
            Some(line) => {
                found = Some(Location { path: files[f].path.clone(), line: line + 1 });
            },
            None => {},
        }
        k = k + 1;
    }
    found
}

/// For each module of `module_name_list`, the line of the source files that
/// declares it (see `locate_all`): files are searched in order, the first
/// file not yet claimed by an earlier module wins and is claimed, else the
/// last claimed file that declares the module, else the module has no
/// location. Without source files no module has a location. A module name
/// that no pattern can be built from is an error.
pub fn find_module_path(module_name_list: &Vec<String>, sources: &Option<Vec<SourceFile>>) -> (r: Result<
    Vec<Option<Location>>,
    LocateError,
>)
    ensures
        sources is None ==> (r matches Ok(locs) && locs@.len() == module_name_list@.len()
            && forall|i: int| 0 <= i < locs@.len() ==> #[trigger] locs@[i] is None),
        sources matches Some(files) ==> {
            &&& (forall|i: int| 0 <= i < module_name_list@.len() ==> #[trigger] module_pattern_compiles(module_name_list@[i]@))
                ==> (r matches Ok(locs) && locs@.len() == module_name_list@.len()
                    && forall|i: int| 0 <= i < locs@.len() ==> #[trigger] location_is(locs@[i], locate_all(module_name_list@, files@)[i], files@))
            &&& r matches Err(LocateError::InvalidModulePattern { module_name }) ==> exists|i: int|
                0 <= i < module_name_list@.len() && module_name_list@[i]@ == module_name@
                && !module_pattern_compiles(module_name_list@[i]@)
                && forall|j: int| 0 <= j < i ==> #[trigger] module_pattern_compiles(module_name_list@[j]@)
            &&& (r is Err || forall|i: int| 0 <= i < module_name_list@.len() ==> #[trigger] module_pattern_compiles(module_name_list@[i]@))
        },
{
    let n = module_name_list.len();
    let mut res: Vec<Option<Location>> = Vec::new();
    match sources {
        None => {
            let mut i: usize = 0;
            while i < n
                invariant
                    n == module_name_list.len(),
                    i <= n,
                    res@.len() == i,
                    forall|k: int| 0 <= k < i ==> #[trigger] res@[k] is None,
                decreases n - i,
            {
                res.push(None);
                i = i + 1;
            }
            Ok(res)
        },
        Some(files) => {
            let ghost names = module_name_list@;
            let mut used: Vec<usize> = Vec::new();
            let mut i: usize = 0;
            #[verifier::loop_isolation(false)]
            while i < n
                invariant
                    n == module_name_list.len(),
                    names == module_name_list@,
                    i <= n,
                    used@ == locate_prefix(names, files@, i as int).1,
                    forall|k: int| 0 <= k < used@.len() ==> #[trigger] used@[k] < files@.len(),
                    res@.len() == i,
                    locate_prefix(names, files@, i as int).0.len() == i,
                    forall|k: int| 0 <= k < i ==> #[trigger] location_is(res@[k], locate_prefix(names, files@, i as int).0[k], files@),
                    forall|k: int| 0 <= k < i ==> #[trigger] module_pattern_compiles(names[k]@),
                decreases n - i,
            {
                let pattern_text = module_pattern(module_name_list[i].as_str());
                let pattern = match compile_regex(pattern_text.as_str()) {
                    Some(p) => p,
                    None => {
                        assert(!module_pattern_compiles(names[i as int]@));
                        return Err(LocateError::InvalidModulePattern { module_name: module_name_list[i].clone() });
                    },
                };
                let ghost before = locate_prefix(names, files@, i as int);
                let loc = locate_one(&pattern, Ghost(names[i as int]@), files, &mut used);
                res.push(loc);
                proof {
                    let after = locate_prefix(names, files@, i + 1);
                    assert(after.0 == before.0.push(locate_step(names[i as int]@, files@, before.1).0));
                    assert forall|k: int| 0 <= k < i + 1 implies #[trigger] location_is(res@[k], after.0[k], files@) by {
                        if k < i {
                            assert(after.0[k] == before.0[k]);
                        }
                    }
                }
                i = i + 1;
            }
            Ok(res)
        },
    }
}

proof fn lemma_first_line_from(m: Seq<char>, lines: Seq<Option<String>>, i: int)
    requires
        0 <= i,
    ensures
        first_declaring_line_from(m, lines, i) matches Some(j) ==> i <= j < lines.len() && line_declares(m, lines[j]),
        first_declaring_line_from(m, lines, i) is None ==> forall|j: int| i <= j < lines.len() ==> !#[trigger] line_declares(m, lines[j]),
    decreases lines.len() - i,
{
    if i < lines.len() && !line_declares(m, lines[i]) {
        lemma_first_line_from(m, lines, i + 1);
        assert forall|j: int| i <= j < lines.len() && first_declaring_line_from(m, lines, i) is None
            implies !#[trigger] line_declares(m, lines[j]) by {
            if j > i {
                assert(i + 1 <= j);
            }
        }
    }
}

proof fn lemma_first_unclaimed(m: Seq<char>, files: Seq<SourceFile>, claimed: Seq<usize>, f: int)
    requires
        0 <= f,
    ensures
        first_unclaimed_declaring_file(m, files, claimed, f) matches Some(g) ==> f <= g < files.len()
            && file_declares(m, files[g]),
        first_unclaimed_declaring_file(m, files, claimed, f) is None ==> forall|g: int| f <= g < files.len()
            ==> claimed.contains(g as usize) || !#[trigger] file_declares(m, files[g]),
    decreases files.len() - f,
{
    if f < files.len() && !(!claimed.contains(f as usize) && file_declares(m, files[f])) {
        lemma_first_unclaimed(m, files, claimed, f + 1);
    }
}

proof fn lemma_last_claimed(m: Seq<char>, files: Seq<SourceFile>, claimed: Seq<usize>, k: int)
    requires
        0 <= k <= claimed.len(),
    ensures
        last_claimed_declaring(m, files, claimed, k) matches Some(j) ==> 0 <= j < k
            && file_declares(m, files[claimed[j] as int]),
        last_claimed_declaring(m, files, claimed, k) is None ==> forall|j: int| 0 <= j < k
            ==> !#[trigger] file_declares(m, files[claimed[j] as int]),
    decreases k,
{
    if k > 0 && !file_declares(m, files[claimed[k - 1] as int]) {
        lemma_last_claimed(m, files, claimed, k - 1);
    }
}

/// Every file claimed in `claimed` is a file of `files`.
pub open spec fn claims_valid(files: Seq<SourceFile>, claimed: Seq<usize>) -> bool {
    forall|k: int| 0 <= k < claimed.len() ==> #[trigger] claimed[k] < files.len()
}

proof fn lemma_step(m: Seq<char>, files: Seq<SourceFile>, claimed: Seq<usize>)
    requires
        files.len() <= usize::MAX,
        claims_valid(files, claimed),
    ensures
        claims_valid(files, locate_step(m, files, claimed).1),
        locate_step(m, files, claimed).0 matches Some((f, l)) ==> 0 <= f < files.len()
            && 0 <= l < files[f].lines@.len() && line_declares(m, files[f].lines@[l]),
        locate_step(m, files, claimed).0 is None <==> forall|f: int| 0 <= f < files.len()
            ==> !#[trigger] file_declares(m, files[f]),
{
    lemma_first_unclaimed(m, files, claimed, 0);
    lemma_last_claimed(m, files, claimed, claimed.len() as int);
    match first_unclaimed_declaring_file(m, files, claimed, 0) {
        Some(f) => {
            lemma_first_line_from(m, files[f].lines@, 0);
            let c2 = claimed.push(f as usize);
            assert forall|k: int| 0 <= k < c2.len() implies #[trigger] c2[k] < files.len() by {
                if k < claimed.len() {
                    assert(c2[k] == claimed[k]);
                }
            }
        },
        None => {
            match last_claimed_declaring(m, files, claimed, claimed.len() as int) {
                Some(k) => {
                    assert(claimed[k] < files.len());
                    lemma_first_line_from(m, files[claimed[k] as int].lines@, 0);
                },
                None => {
                    assert forall|f: int| 0 <= f < files.len() implies !#[trigger] file_declares(m, files[f]) by {
                        if claimed.contains(f as usize) {
                            let j = choose|j: int| 0 <= j < claimed.len() && claimed[j] == f as usize;
                            assert(claimed[j] as int == f);
                            assert(!file_declares(m, files[claimed[j] as int]));
                        }
                    }
                },
            }
        },
    }
}

proof fn lemma_prefix(names: Seq<String>, files: Seq<SourceFile>, n: int)
    requires
        0 <= n,
        files.len() <= usize::MAX,
    ensures
        locate_prefix(names, files, n).0.len() == n,
        claims_valid(files, locate_prefix(names, files, n).1),
        forall|i: int| 0 <= i < n ==> #[trigger] locate_prefix(names, files, n).0[i]
            == locate_step(names[i]@, files, locate_prefix(names, files, i).1).0,
    decreases n,
{
    if n > 0 {
        lemma_prefix(names, files, n - 1);
        let prev = locate_prefix(names, files, n - 1);
        lemma_step(names[n - 1]@, files, prev.1);
        assert forall|i: int| 0 <= i < n implies #[trigger] locate_prefix(names, files, n).0[i]
            == locate_step(names[i]@, files, locate_prefix(names, files, i).1).0 by {
            if i < n - 1 {
                assert(locate_prefix(names, files, n).0[i] == prev.0[i]);
            }
        }
    }
}

/// A module is located only at a line that declares it: the location is a
/// line of one of the files, and the module pattern matches that line.
pub proof fn lemma_location_declares_module(names: Seq<String>, files: Seq<SourceFile>, i: int)
    requires
        0 <= i < names.len(),
        files.len() <= usize::MAX,
    ensures
        locate_all(names, files)[i] matches Some((f, l)) ==> 0 <= f < files.len() && 0 <= l < files[f].lines@.len()
            && line_declares(names[i]@, files[f].lines@[l]),
{
    lemma_prefix(names, files, names.len() as int);
    lemma_prefix(names, files, i);
    lemma_step(names[i]@, files, locate_prefix(names, files, i).1);
}

/// A module is left without a location exactly when no line of any file
/// declares it: a declaration is found even where its file was claimed by
/// an earlier module.
pub proof fn lemma_unlocated_iff_undeclared(names: Seq<String>, files: Seq<SourceFile>, i: int)
    requires
        0 <= i < names.len(),
        files.len() <= usize::MAX,
    ensures
        locate_all(names, files)[i] is None <==> forall|f: int, l: int| 0 <= f < files.len() && 0 <= l < files[f].lines@.len()
            ==> !#[trigger] line_declares(names[i]@, files[f].lines@[l]),
{
    lemma_prefix(names, files, names.len() as int);
    lemma_prefix(names, files, i);
    lemma_step(names[i]@, files, locate_prefix(names, files, i).1);
    let m = names[i]@;
    assert forall|f: int| 0 <= f < files.len() implies (file_declares(m, files[f]) <==> exists|l: int|
        0 <= l < files[f].lines@.len() && #[trigger] line_declares(m, files[f].lines@[l])) by {
        lemma_first_line_from(m, files[f].lines@, 0);
    }
    if locate_all(names, files)[i] is None {
        assert forall|f: int, l: int| 0 <= f < files.len() && 0 <= l < files[f].lines@.len()
            implies !#[trigger] line_declares(m, files[f].lines@[l]) by {
            assert(!file_declares(m, files[f]));
        }
    } else {
        let f = choose|f: int| 0 <= f < files.len() && #[trigger] file_declares(m, files[f]);
        let l = choose|l: int| 0 <= l < files[f].lines@.len() && #[trigger] line_declares(m, files[f].lines@[l]);
        assert(line_declares(names[i]@, files[f].lines@[l]));
    }
}

} // verus!
