//! The text files that describe an existing simulator project.
use vstd::prelude::*;
use vstd::string::*;

verus! {

/// Whether `c` has the Unicode `White_Space` property.
pub open spec fn is_white(c: char) -> bool {
    let u = c as u32;
    (9 <= u <= 13) || u == 32 || u == 0x85 || u == 0xa0 || u == 0x1680 || (0x2000 <= u <= 0x200a)
        || u == 0x2028 || u == 0x2029 || u == 0x202f || u == 0x205f || u == 0x3000
}

/// Whether `c` has the Unicode `White_Space` property.
pub fn white(c: char) -> (r: bool)
    ensures
        r == is_white(c),
{
    let u = c as u32;
    (9 <= u && u <= 13) || u == 32 || u == 0x85 || u == 0xa0 || u == 0x1680 || (0x2000 <= u && u
        <= 0x200a) || u == 0x2028 || u == 0x2029 || u == 0x202f || u == 0x205f || u == 0x3000
}

/// The first index from `i` on that holds no white space, or the length.
pub open spec fn first_non_white(s: Seq<char>, i: int) -> int
    decreases s.len() - i,
{
    if i >= s.len() || i < 0 {
        s.len() as int
    } else if is_white(s[i]) {
        first_non_white(s, i + 1)
    } else {
        i
    }
}

/// One past the last index below `j` that holds no white space, or zero.
pub open spec fn end_non_white(s: Seq<char>, j: int) -> int
    decreases j,
{
    if j <= 0 {
        0
    } else if is_white(s[j - 1]) {
        end_non_white(s, j - 1)
    } else {
        j
    }
}

/// `s` without leading and trailing white space.
pub open spec fn trimmed(s: Seq<char>) -> Seq<char> {
    let a = first_non_white(s, 0);
    let b = end_non_white(s, s.len() as int);
    if b <= a {
        Seq::empty()
    } else {
        s.subrange(a, b)
    }
}

proof fn lemma_end_non_white_le(s: Seq<char>, j: int)
    requires
        0 <= j <= s.len(),
    ensures
        0 <= end_non_white(s, j) <= j,
    decreases j,
{
    if j > 0 {
        lemma_end_non_white_le(s, j - 1);
    }
}

/// Removes leading and trailing white space.
pub fn trim(s: &str) -> (r: String)
    ensures
        r@ == trimmed(s@),
{
    let n = s.unicode_len();
    let mut a: usize = 0;
    while a < n && white(s.get_char(a))
        invariant
            n == s@.len(),
            a <= n,
            first_non_white(s@, a as int) == first_non_white(s@, 0),
        decreases n - a,
    {
        a = a + 1;
    }
    let mut b: usize = n;
    while b > a && white(s.get_char(b - 1))
        invariant
            n == s@.len(),
            a <= b <= n,
            end_non_white(s@, b as int) == end_non_white(s@, n as int),
        decreases b,
    {
        b = b - 1;
    }
    proof {
        lemma_end_non_white_le(s@, a as int);
    }
    let t = s.substring_char(a, b);
    t.to_owned()
}

/// Why a project's description could not be read.
#[derive(Debug, Clone, PartialEq, Eq)]
pub enum PropertiesError {
    /// A checksum line has no hash after its `MD5` separator.
    NoHashColumn,
    /// The paths file lacks the named field.
    MissingField(String),
}

/// Whether the separator `MD5` starts at index `i` of `s`.
pub open spec fn md5_at(s: Seq<char>, i: int) -> bool {
    0 <= i && i + 3 <= s.len() && s[i] == 'M' && s[i + 1] == 'D' && s[i + 2] == '5'
}

/// The first index from `i` on where the separator starts, or the length.
pub open spec fn find_md5(s: Seq<char>, i: int) -> int
    decreases s.len() - i,
{
    if i < 0 || i + 3 > s.len() {
        s.len() as int
    } else if md5_at(s, i) {
        i
    } else {
        find_md5(s, i + 1)
    }
}

proof fn lemma_find_md5_bounds(s: Seq<char>, i: int)
    requires
        0 <= i,
    ensures
        find_md5(s, i) == s.len() || (i <= find_md5(s, i) && find_md5(s, i) + 3 <= s.len()),
    decreases s.len() - i,
{
    if i + 3 <= s.len() && !md5_at(s, i) {
        lemma_find_md5_bounds(s, i + 1);
    }
}

fn find_md5_exec(s: &str, n: usize, start: usize) -> (r: usize)
    requires
        n == s@.len(),
        start <= n,
    ensures
        r == find_md5(s@, start as int),
        r == n || start <= r <= n - 3,
{
    proof {
        lemma_find_md5_bounds(s@, start as int);
    }
    let mut i: usize = start;
    while n - i >= 3
        invariant
            n == s@.len(),
            start <= i <= n,
            find_md5(s@, i as int) == find_md5(s@, start as int),
        decreases n - i,
    {
        if s.get_char(i) == 'M' && s.get_char(i + 1) == 'D' && s.get_char(i + 2) == '5' {
            return i;
        }
        i = i + 1;
    }
    n
}

/// The path column of a checksum line: what precedes the first separator, trimmed.
pub open spec fn md5_path(s: Seq<char>) -> Seq<char> {
    trimmed(s.subrange(0, find_md5(s, 0)))
}

/// The hash column of a checksum line: what lies between the first separator and the next
/// one or the end, trimmed.
pub open spec fn md5_hash(s: Seq<char>) -> Seq<char> {
    let p = find_md5(s, 0);
    trimmed(s.subrange(p + 3, find_md5(s, p + 3)))
}

/// One line of a project's checksum file: a path, the hash kind `MD5`, and the hash.
#[derive(Debug, Clone, PartialEq, Eq, Hash)]
pub struct PropertiesMd5Entry {
    pub path: String,
    pub hash_type: String,
    pub hash: String,
}

impl PropertiesMd5Entry {
    /// Reads `<path> MD5 <hash>`; a line without the separator has no hash column.
    pub fn from_str(s: &str) -> (r: Result<PropertiesMd5Entry, PropertiesError>)
        ensures
            find_md5(s@, 0) == s@.len() ==> r == Err::<PropertiesMd5Entry, PropertiesError>(
                PropertiesError::NoHashColumn,
            ),
            find_md5(s@, 0) != s@.len() ==> (r matches Ok(e) && e.path@ == md5_path(s@)
                && e.hash_type@ == "MD5"@ && e.hash@ == md5_hash(s@)),
    {
        let n = s.unicode_len();
        let p = find_md5_exec(s, n, 0);
        if p == n {
            return Err(PropertiesError::NoHashColumn);
        }
        let q = find_md5_exec(s, n, p + 3);
        let path = trim(s.substring_char(0, p));
        let hash = trim(s.substring_char(p + 3, q));
        Ok(PropertiesMd5Entry { path, hash_type: String::from_str("MD5"), hash })
    }
}

/// The index of the first `c` from `i` on, or the length.
pub open spec fn find_char(s: Seq<char>, c: char, i: int) -> int
    decreases s.len() - i,
{
    if i < 0 || i >= s.len() {
        s.len() as int
    } else if s[i] == c {
        i
    } else {
        find_char(s, c, i + 1)
    }
}

proof fn lemma_find_char_bounds(s: Seq<char>, c: char, i: int)
    requires
        0 <= i <= s.len(),
    ensures
        i <= find_char(s, c, i) <= s.len(),
    decreases s.len() - i,
{
    if i < s.len() && s[i] != c {
        lemma_find_char_bounds(s, c, i + 1);
    }
}

fn find_char_exec(s: &str, n: usize, c: char, start: usize) -> (r: usize)
    requires
        n == s@.len(),
        start <= n,
    ensures
        r == find_char(s@, c, start as int),
        start <= r <= n,
{
    proof {
        lemma_find_char_bounds(s@, c, start as int);
    }
    let mut i: usize = start;
    while i < n
        invariant
            n == s@.len(),
            start <= i <= n,
            find_char(s@, c, i as int) == find_char(s@, c, start as int),
        decreases n - i,
    {
        if s.get_char(i) == c {
            return i;
        }
        i = i + 1;
    }
    n
}

/// A line without its trailing carriage return, if any.
pub open spec fn strip_cr(l: Seq<char>) -> Seq<char> {
    if l.len() > 0 && l.last() == '\r' {
        l.drop_last()
    } else {
        l
    }
}

/// The lines of `s` from index `i` on: split at each line feed, a final carriage return taken
/// off each line, and no empty line after a final line feed.
pub open spec fn lines_from(s: Seq<char>, i: int) -> Seq<Seq<char>>
    decreases s.len() + 1 - i,
{
    if i < 0 || i >= s.len() {
        Seq::empty()
    } else {
        let e = find_char(s, '\n', i);
        if e < i || e > s.len() {
            Seq::empty()
        } else {
            seq![strip_cr(s.subrange(i, e))] + lines_from(s, e + 1)
        }
    }
}

/// The views of some strings.
pub open spec fn views(v: Seq<String>) -> Seq<Seq<char>> {
    v.map_values(|x: String| x@)
}

/// The lines of `s`.
pub fn lines(s: &str) -> (r: Vec<String>)
    ensures
        views(r@) == lines_from(s@, 0),
{
    let n = s.unicode_len();
    let mut out: Vec<String> = Vec::new();
    let mut i: usize = 0;
    while i < n
        invariant
            n == s@.len(),
            i <= n,
            views(out@) + lines_from(s@, i as int) == lines_from(s@, 0),
        decreases n - i,
    {
        let e = find_char_exec(s, n, '\n', i);
        let mut end: usize = e;
        if end > i && s.get_char(end - 1) == '\r' {
            end = end - 1;
        }
        let line = s.substring_char(i, end).to_owned();
        proof {
            assert(line@ =~= strip_cr(s@.subrange(i as int, e as int)));
            assert(views(out@.push(line)) =~= views(out@).push(line@));
        }
        out.push(line);
        i = if e < n { e + 1 } else { n };
        proof {
            if e == n {
                assert(lines_from(s@, e + 1) =~= Seq::<Seq<char>>::empty());
            }
        }
    }
    proof {
        assert(views(out@) + lines_from(s@, i as int) =~= views(out@));
    }
    out
}

/// The path and hash of a checksum line, where it has a hash column.
pub open spec fn entry_of(l: Seq<char>) -> Option<(Seq<char>, Seq<char>)> {
    if find_md5(l, 0) == l.len() {
        None
    } else {
        Some((md5_path(l), md5_hash(l)))
    }
}

/// The entries of the lines that parse, each once, in order of first appearance.
pub open spec fn md5_entries(ls: Seq<Seq<char>>) -> Seq<(Seq<char>, Seq<char>)>
    decreases ls.len(),
{
    if ls.len() == 0 {
        Seq::empty()
    } else {
        let d = md5_entries(ls.drop_last());
        match entry_of(ls.last()) {
            None => d,
            Some(e) => if d.contains(e) {
                d
            } else {
                d.push(e)
            },
        }
    }
}

/// The checksum file of a project: its entries, each once.
#[derive(Debug, Clone)]
pub struct PropertiesMd5 {
    pub entries: Vec<PropertiesMd5Entry>,
}

/// The path and hash of each entry.
pub open spec fn pairs(v: Seq<PropertiesMd5Entry>) -> Seq<(Seq<char>, Seq<char>)> {
    v.map_values(|e: PropertiesMd5Entry| (e.path@, e.hash@))
}

fn contains_entry(v: &Vec<PropertiesMd5Entry>, e: &PropertiesMd5Entry) -> (r: bool)
    ensures
        r == pairs(v@).contains((e.path@, e.hash@)),
{
    let mut j: usize = 0;
    while j < v.len()
        invariant
            j <= v@.len(),
            forall|k: int| 0 <= k < j ==> pairs(v@)[k] != (e.path@, e.hash@),
        decreases v@.len() - j,
    {
        if v[j].path == e.path && v[j].hash == e.hash {
            proof {
                assert(pairs(v@)[j as int] == (e.path@, e.hash@));
            }
            return true;
        }
        j = j + 1;
    }
    false
}

impl PropertiesMd5 {
    /// Reads a checksum file: every line that has a hash column, each entry once.
    pub fn from_str(s: &str) -> (r: PropertiesMd5)
        ensures
            pairs(r.entries@) == md5_entries(lines_from(s@, 0)),
            forall|k: int| 0 <= k < r.entries@.len() ==> (#[trigger] r.entries@[k]).hash_type@ == "MD5"@,
    {
        let ls = lines(s);
        let mut entries: Vec<PropertiesMd5Entry> = Vec::new();
        let mut k: usize = 0;
        while k < ls.len()
            invariant
                views(ls@) == lines_from(s@, 0),
                k <= ls@.len(),
                pairs(entries@) == md5_entries(views(ls@).take(k as int)),
                forall|i: int| 0 <= i < entries@.len() ==> (#[trigger] entries@[i]).hash_type@ == "MD5"@,
            decreases ls@.len() - k,
        {
            proof {
                assert(views(ls@).take(k + 1).drop_last() =~= views(ls@).take(k as int));
                assert(views(ls@).take(k + 1).last() == ls@[k as int]@);
            }
            match PropertiesMd5Entry::from_str(ls[k].as_str()) {
                Ok(e) => {
                    if !contains_entry(&entries, &e) {
                        proof {
                            assert(pairs(entries@.push(e)) =~= pairs(entries@).push((e.path@, e.hash@)));
                        }
                        entries.push(e);
                    }
                },
                Err(_) => {},
            }
            k = k + 1;
        }
        proof {
            assert(views(ls@).take(k as int) =~= views(ls@));
        }
        PropertiesMd5 { entries }
    }
}

/// The key of a `key: value` line: what precedes the first colon, trimmed.
pub open spec fn colon_key(l: Seq<char>) -> Seq<char> {
    trimmed(l.subrange(0, find_char(l, ':', 0)))
}

/// The value of a `key: value` line: what lies between the first colon and the next one or
/// the end, trimmed; empty where the line has no colon.
pub open spec fn colon_value(l: Seq<char>) -> Seq<char> {
    let c = find_char(l, ':', 0);
    if c >= l.len() {
        Seq::empty()
    } else {
        trimmed(l.subrange(c + 1, find_char(l, ':', c + 1)))
    }
}

/// The value of the last line whose key is `key`.
pub open spec fn field_value(ls: Seq<Seq<char>>, key: Seq<char>) -> Option<Seq<char>>
    decreases ls.len(),
{
    if ls.len() == 0 {
        None
    } else if colon_key(ls.last()) == key {
        Some(colon_value(ls.last()))
    } else {
        field_value(ls.drop_last(), key)
    }
}

fn split_colon(l: &str) -> (r: (String, String))
    ensures
        r.0@ == colon_key(l@),
        r.1@ == colon_value(l@),
{
    let n = l.unicode_len();
    let c = find_char_exec(l, n, ':', 0);
    let key = trim(l.substring_char(0, c));
    if c >= n {
        return (key, String::new());
    }
    let d = find_char_exec(l, n, ':', c + 1);
    (key, trim(l.substring_char(c + 1, d)))
}

pub open spec fn opt_view(o: Option<String>) -> Option<Seq<char>> {
    match o {
        Some(x) => Some(x@),
        None => None,
    }
}

/// The paths file of a project: where the project, the simulator, the model builder and the
/// MinGW toolchain live.
#[derive(Debug, Clone)]
pub struct PropertiesPaths {
    pub project: String,
    pub simics_root: String,
    pub simics_model_builder: String,
    pub mingw: String,
}

/// Whether `p` holds the four fields of the lines `ls`.
pub open spec fn paths_of(ls: Seq<Seq<char>>, p: PropertiesPaths) -> bool {
    &&& first_missing(ls) is None
    &&& field_value(ls, "project"@) == Some(p.project@)
    &&& field_value(ls, "simics-root"@) == Some(p.simics_root@)
    &&& field_value(ls, "simics-model-builder"@) == Some(p.simics_model_builder@)
    &&& field_value(ls, "mingw"@) == Some(p.mingw@)
}

/// The first of the four required fields that `ls` lacks.
pub open spec fn first_missing(ls: Seq<Seq<char>>) -> Option<Seq<char>> {
    if field_value(ls, "project"@) is None {
        Some("project"@)
    } else if field_value(ls, "simics-root"@) is None {
        Some("simics-root"@)
    } else if field_value(ls, "simics-model-builder"@) is None {
        Some("simics-model-builder"@)
    } else if field_value(ls, "mingw"@) is None {
        Some("mingw"@)
    } else {
        None
    }
}

fn update_field(cur: Option<String>, key: &String, value: &String, name: &String) -> (r: Option<String>)
    ensures
        opt_view(r) == if key@ == name@ { Some(value@) } else { opt_view(cur) },
{
    if *key == *name {
        Some(value.clone())
    } else {
        cur
    }
}

impl PropertiesPaths {
    /// Reads `key: value` lines; a later line overrides an earlier one with the same key, and
    /// each of `project`, `simics-root`, `simics-model-builder` and `mingw` is required.
    pub fn from_str(s: &str) -> (r: Result<PropertiesPaths, PropertiesError>)
        ensures
            ({
                let ls = lines_from(s@, 0);
                match r {
                    Ok(p) => paths_of(ls, p),
                    Err(e) => e matches PropertiesError::MissingField(n) && first_missing(ls) == Some(
                        n@,
                    ),
                }
            }),
    {
        let ls = lines(s);
        let n_project = String::from_str("project");
        let n_root = String::from_str("simics-root");
        let n_builder = String::from_str("simics-model-builder");
        let n_mingw = String::from_str("mingw");
        let mut project: Option<String> = None;
        let mut root: Option<String> = None;
        let mut builder: Option<String> = None;
        let mut mingw: Option<String> = None;
        let mut k: usize = 0;
        while k < ls.len()
            invariant
                views(ls@) == lines_from(s@, 0),
                k <= ls@.len(),
                n_project@ == "project"@,
                n_root@ == "simics-root"@,
                n_builder@ == "simics-model-builder"@,
                n_mingw@ == "mingw"@,
                opt_view(project) == field_value(views(ls@).take(k as int), "project"@),
                opt_view(root) == field_value(views(ls@).take(k as int), "simics-root"@),
                opt_view(builder) == field_value(views(ls@).take(k as int), "simics-model-builder"@),
                opt_view(mingw) == field_value(views(ls@).take(k as int), "mingw"@),
            decreases ls@.len() - k,
        {
            proof {
                assert(views(ls@).take(k + 1).drop_last() =~= views(ls@).take(k as int));
                assert(views(ls@).take(k + 1).last() == ls@[k as int]@);
            }
            let (key, value) = split_colon(ls[k].as_str());
            project = update_field(project, &key, &value, &n_project);
            root = update_field(root, &key, &value, &n_root);
            builder = update_field(builder, &key, &value, &n_builder);
            mingw = update_field(mingw, &key, &value, &n_mingw);
            k = k + 1;
        }
        proof {
            assert(views(ls@).take(k as int) =~= views(ls@));
        }
        match (project, root, builder, mingw) {
            (Some(project), Some(simics_root), Some(simics_model_builder), Some(mingw)) => Ok(
                PropertiesPaths { project, simics_root, simics_model_builder, mingw },
            ),
            (None, _, _, _) => Err(PropertiesError::MissingField(n_project)),
            (_, None, _, _) => Err(PropertiesError::MissingField(n_root)),
            (_, _, None, _) => Err(PropertiesError::MissingField(n_builder)),
            _ => Err(PropertiesError::MissingField(n_mingw)),
        }
    }
}

/// A project's description: its checksums and its paths.
#[derive(Debug, Clone)]
pub struct Properties {
    pub md5: PropertiesMd5,
    pub paths: PropertiesPaths,
}

impl Properties {
    /// Reads the texts of the checksum file and of the paths file.
    pub fn from_texts(md5: &str, paths: &str) -> (r: Result<Properties, PropertiesError>)
        ensures
            match r {
                Ok(p) => pairs(p.md5.entries@) == md5_entries(lines_from(md5@, 0)) && paths_of(
                    lines_from(paths@, 0),
                    p.paths,
                ),
                Err(e) => e matches PropertiesError::MissingField(n) && first_missing(
                    lines_from(paths@, 0),
                ) == Some(n@),
            },
    {
        let m = PropertiesMd5::from_str(md5);
        match PropertiesPaths::from_str(paths) {
            Ok(p) => Ok(Properties { md5: m, paths: p }),
            Err(e) => Err(e),
        }
    }
}

} // verus!
