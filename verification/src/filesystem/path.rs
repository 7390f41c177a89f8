//! File paths.
use vstd::prelude::*;

verus! {

/// The pieces of `s` seen so far while splitting it at `/`: the finished
/// pieces, and the piece being read.
pub open spec fn split_state(s: Seq<char>) -> (Seq<Seq<char>>, Seq<char>)
    decreases s.len(),
{
    if s.len() == 0 {
        (Seq::empty(), Seq::empty())
    } else {
        let prev = split_state(s.drop_last());
        if s.last() == '/' {
            (prev.0.push(prev.1), Seq::empty())
        } else {
            (prev.0, prev.1.push(s.last()))
        }
    }
}

/// `s` split at every `/`, where an empty last piece is dropped (as `str`'s
/// `split_terminator` does).
pub open spec fn split_terminator(s: Seq<char>) -> Seq<Seq<char>> {
    let st = split_state(s);
    if st.1.len() == 0 {
        st.0
    } else {
        st.0.push(st.1)
    }
}

/// The components of a path: its pieces after the leading `/`.
pub open spec fn path_parts(raw: Seq<char>) -> Seq<Seq<char>> {
    split_terminator(raw.skip(1))
}

/// A component is valid unless it is empty, `.` or `..`.
pub open spec fn valid_component(p: Seq<char>) -> bool {
    &&& p.len() > 0
    &&& p != seq!['.']
    &&& p != seq!['.', '.']
}

/// A valid path starts with `/` and has only valid components.
pub open spec fn valid_path(raw: Seq<char>) -> bool {
    &&& raw.len() > 0
    &&& raw[0] == '/'
    &&& forall|j: int| 0 <= j < path_parts(raw).len() ==> valid_component(#[trigger] path_parts(raw)[j])
}

/// A path that ends with `/` names a directory.
pub open spec fn spec_must_be_dir(raw: Seq<char>) -> bool {
    raw.len() > 0 && raw.last() == '/'
}

/// `/` followed by each of `parts`, each preceded by `/`: `/a/b` for
/// `[a, b]`.
pub open spec fn join_with_slashes(parts: Seq<Seq<char>>) -> Seq<char>
    decreases parts.len(),
{
    if parts.len() == 0 {
        Seq::empty()
    } else {
        join_with_slashes(parts.drop_last()) + seq!['/'] + parts.last()
    }
}

/// The directories of a path: the path itself if it names a directory,
/// otherwise the path without its last component (`/` if it has at most
/// one).
pub open spec fn dirs_of(raw: Seq<char>) -> Seq<char> {
    if spec_must_be_dir(raw) {
        raw
    } else if path_parts(raw).len() <= 1 {
        seq!['/']
    } else {
        join_with_slashes(path_parts(raw).drop_last())
    }
}

/// The last component of a path, or `/` if it has none.
pub open spec fn filename_of(raw: Seq<char>) -> Seq<char> {
    if path_parts(raw).len() == 0 {
        seq!['/']
    } else {
        path_parts(raw).last()
    }
}

/// Whether `s` holds no `/`.
pub open spec fn slash_free(s: Seq<char>) -> bool {
    forall|i: int| 0 <= i < s.len() ==> s[i] != '/'
}

/// Reading a slash-free run only extends the current piece.
proof fn lemma_split_state_append_run(x: Seq<char>, run: Seq<char>)
    requires
        slash_free(run),
    ensures
        split_state(x + run) == (split_state(x).0, split_state(x).1 + run),
    decreases run.len(),
{
    if run.len() == 0 {
        assert(x + run =~= x);
        assert(split_state(x).1 + run =~= split_state(x).1);
    } else {
        let shorter = run.drop_last();
        lemma_split_state_append_run(x, shorter);
        assert((x + run).drop_last() =~= x + shorter);
        assert(split_state(x).1 + run =~= (split_state(x).1 + shorter).push(run.last()));
    }
}

/// Splitting `/a/b/c` after its first character yields the finished pieces
/// `a`, `b` and the piece `c` being read.
proof fn lemma_split_joined(ps: Seq<Seq<char>>)
    requires
        ps.len() >= 1,
        forall|i: int| 0 <= i < ps.len() ==> slash_free(#[trigger] ps[i]),
    ensures
        join_with_slashes(ps).len() >= 1,
        join_with_slashes(ps)[0] == '/',
        split_state(join_with_slashes(ps).skip(1)) == (ps.drop_last(), ps.last()),
    decreases ps.len(),
{
    let j = join_with_slashes(ps);
    let last = ps.last();
    assert(slash_free(ps[ps.len() - 1]));
    if ps.len() == 1 {
        assert(ps.drop_last() =~= Seq::<Seq<char>>::empty());
        assert(join_with_slashes(ps.drop_last()) =~= Seq::<char>::empty());
        assert(j =~= seq!['/'] + last);
        assert(j.skip(1) =~= Seq::<char>::empty() + last);
        lemma_split_state_append_run(Seq::<char>::empty(), last);
    } else {
        let init = ps.drop_last();
        assert forall|i: int| 0 <= i < init.len() implies slash_free(#[trigger] init[i]) by {
            assert(init[i] == ps[i]);
        }
        lemma_split_joined(init);
        let a = join_with_slashes(init).skip(1);
        assert(j.skip(1) =~= a.push('/') + last);
        assert(a.push('/').drop_last() =~= a);
        lemma_split_state_append_run(a.push('/'), last);
        assert(Seq::<char>::empty() + last =~= last);
        assert(init.drop_last().push(init.last()) =~= init);
    }
}

/// Every piece produced while splitting is free of `/`.
proof fn lemma_split_state_slash_free(s: Seq<char>)
    ensures
        slash_free(split_state(s).1),
        forall|i: int|
            0 <= i < split_state(s).0.len() ==> slash_free(#[trigger] split_state(s).0[i]),
    decreases s.len(),
{
    if s.len() > 0 {
        lemma_split_state_slash_free(s.drop_last());
    }
}

/// The components of a path are free of `/`.
proof fn lemma_parts_slash_free(raw: Seq<char>)
    ensures
        forall|i: int| 0 <= i < path_parts(raw).len() ==> slash_free(#[trigger] path_parts(raw)[i]),
{
    lemma_split_state_slash_free(raw.skip(1));
}

/// The directories of a valid path form a valid path.
pub proof fn lemma_dirs_of_valid(raw: Seq<char>)
    requires
        valid_path(raw),
    ensures
        valid_path(dirs_of(raw)),
{
    let parts = path_parts(raw);
    if spec_must_be_dir(raw) {
    } else if parts.len() <= 1 {
        let root = seq!['/'];
        assert(root.skip(1) =~= Seq::<char>::empty());
        assert(path_parts(root) =~= Seq::<Seq<char>>::empty());
    } else {
        let ps = parts.drop_last();
        lemma_parts_slash_free(raw);
        assert forall|i: int| 0 <= i < ps.len() implies slash_free(#[trigger] ps[i]) by {
            assert(ps[i] == parts[i]);
        }
        lemma_split_joined(ps);
        let d = join_with_slashes(ps);
        assert(valid_component(parts[ps.len() - 1]));
        assert(ps.last().len() > 0);
        assert(path_parts(d) =~= ps.drop_last().push(ps.last()));
        assert(path_parts(d) =~= ps);
        assert forall|j: int| 0 <= j < path_parts(d).len() implies valid_component(
            #[trigger] path_parts(d)[j],
        ) by {
            assert(path_parts(d)[j] == parts[j]);
        }
    }
}

/// The pieces of `s` that a list of character ranges delimits.
pub open spec fn pieces(s: Seq<char>, ranges: Seq<(usize, usize)>) -> Seq<Seq<char>> {
    ranges.map_values(|r: (usize, usize)| s.subrange(r.0 as int, r.1 as int))
}

/// The character ranges of the components of `s` (its pieces after the
/// first character).
fn component_ranges(s: &str) -> (r: Vec<(usize, usize)>)
    requires
        s@.len() >= 1,
    ensures
        pieces(s@, r@) == path_parts(s@),
        forall|j: int|
            0 <= j < r@.len() ==> 1 <= (#[trigger] r@[j]).0 <= r@[j].1 <= s@.len(),
{
    let n = s.unicode_len();
    let mut ranges: Vec<(usize, usize)> = Vec::new();
    let mut start: usize = 1;
    let mut k: usize = 1;
    assert(s@.subrange(1, 1) =~= Seq::<char>::empty());
    assert(pieces(s@, ranges@) =~= Seq::<Seq<char>>::empty());
    while k < n
        invariant
            n == s@.len(),
            1 <= start <= k <= n,
            split_state(s@.subrange(1, k as int)) == (pieces(s@, ranges@), s@.subrange(
                start as int,
                k as int,
            )),
            forall|j: int|
                0 <= j < ranges@.len() ==> 1 <= (#[trigger] ranges@[j]).0 <= ranges@[j].1 <= k,
        decreases n - k,
    {
        let c = s.get_char(k);
        let ghost before = s@.subrange(1, k as int);
        assert(s@.subrange(1, k + 1).drop_last() =~= before);
        assert(s@.subrange(1, k + 1).last() == c);
        if c == '/' {
            let ghost old_ranges = ranges@;
            ranges.push((start, k));
            assert(pieces(s@, ranges@) =~= pieces(s@, old_ranges).push(
                s@.subrange(start as int, k as int),
            ));
            start = k + 1;
            assert(s@.subrange(start as int, k + 1) =~= Seq::<char>::empty());
        } else {
            assert(s@.subrange(start as int, k + 1) =~= s@.subrange(start as int, k as int).push(
                c,
            ));
        }
        k = k + 1;
    }
    assert(s@.subrange(1, n as int) =~= s@.skip(1));
    if start < n {
        let ghost old_ranges = ranges@;
        ranges.push((start, n));
        assert(pieces(s@, ranges@) =~= pieces(s@, old_ranges).push(
            s@.subrange(start as int, n as int),
        ));
    }
    ranges
}

/// Whether the characters `s[start..end]` form a valid component.
fn component_is_valid(s: &str, start: usize, end: usize) -> (b: bool)
    requires
        start <= end <= s@.len(),
    ensures
        b == valid_component(s@.subrange(start as int, end as int)),
{
    let ghost p = s@.subrange(start as int, end as int);
    if end == start {
        return false;
    }
    if end - start == 1 && s.get_char(start) == '.' {
        assert(p =~= seq!['.']);
        return false;
    }
    if end - start == 2 && s.get_char(start) == '.' && s.get_char(start + 1) == '.' {
        assert(p =~= seq!['.', '.']);
        return false;
    }
    proof {
        if p == seq!['.'] {
            assert(p.len() == 1 && p[0] == '.');
        }
        if p == seq!['.', '.'] {
            assert(p.len() == 2 && p[0] == '.' && p[1] == '.');
        }
    }
    true
}

/// A path to a file
pub struct FilePath {
    raw_path: String,
}

impl View for FilePath {
    type V = Seq<char>;

    closed spec fn view(&self) -> Seq<char> {
        self.raw_path@
    }
}

impl FilePath {
    /// Every `FilePath` holds a valid path.
    #[verifier::type_invariant]
    spec fn inv(self) -> bool {
        valid_path(self.raw_path@)
    }

    /// Constructs a `FilePath` from an owned string containing the raw
    /// path. Directories are delimited by `/`. Should start with a `/` to
    /// denote the root directory.
    ///
    /// Returns `None` if the path is invalid.  Invalid paths include those
    /// that don't start with `/`, contain empty components (`//`), or contain
    /// `.` or `..` components.
    pub fn new(path: String) -> (r: Option<Self>)
        ensures
            r is Some <==> valid_path(path@),
            r matches Some(p) ==> p@ == path@,
    {
        let s = path.as_str();
        if s.unicode_len() == 0 || s.get_char(0) != '/' {
            return None;
        }
        let ranges = component_ranges(s);
        let mut j: usize = 0;
        while j < ranges.len()
            invariant
                s@ == path@,
                pieces(s@, ranges@) == path_parts(s@),
                forall|i: int|
                    0 <= i < ranges@.len() ==> 1 <= (#[trigger] ranges@[i]).0 <= ranges@[i].1
                        <= s@.len(),
                j <= ranges@.len(),
                forall|i: int| 0 <= i < j ==> valid_component(#[trigger] path_parts(s@)[i]),
            decreases ranges@.len() - j,
        {
            let (a, b) = ranges[j];
            assert(path_parts(s@)[j as int] == s@.subrange(a as int, b as int));
            if !component_is_valid(s, a, b) {
                return None;
            }
            j = j + 1;
        }
        Some(FilePath { raw_path: path })
    }

    /// Splits the path into its constituent parts, one `str` for each
    /// directory in the path, ending with the filename itself
    pub fn as_parts(&self) -> (r: Vec<&str>)
        ensures
            r@.map_values(|p: &str| p@) == path_parts(self@),
    {
        proof {
            use_type_invariant(self);
        }
        let s = self.raw_path.as_str();
        let ranges = component_ranges(s);
        let mut parts: Vec<&str> = Vec::new();
        let mut j: usize = 0;
        while j < ranges.len()
            invariant
                s@ == self@,
                pieces(s@, ranges@) == path_parts(s@),
                forall|i: int|
                    0 <= i < ranges@.len() ==> 1 <= (#[trigger] ranges@[i]).0 <= ranges@[i].1
                        <= s@.len(),
                j <= ranges@.len(),
                parts@.len() == j,
                forall|i: int| 0 <= i < j ==> (#[trigger] parts@[i])@ == path_parts(s@)[i],
            decreases ranges@.len() - j,
        {
            let (a, b) = ranges[j];
            parts.push(s.substring_char(a, b));
            j = j + 1;
        }
        assert(parts@.map_values(|p: &str| p@) =~= path_parts(self@));
        parts
    }

    /// Returns a `FilePath` containing just the directories of the path; that
    /// is, everything except the final filename. If `self.must_be_dir` is
    /// `true`, then returns a copy of `self`.
    pub fn path_dirs(&self) -> (r: Self)
        ensures
            r@ == dirs_of(self@),
            valid_path(r@),
    {
        proof {
            use_type_invariant(self);
            lemma_dirs_of_valid(self@);
        }
        if self.must_be_dir() {
            return FilePath { raw_path: self.raw_path.clone() };
        }
        let s = self.raw_path.as_str();
        let ranges = component_ranges(s);
        proof {
            reveal_strlit("/");
        }
        if ranges.len() <= 1 {
            return FilePath { raw_path: String::from_str("/") };
        }
        let ghost parts = path_parts(self@);
        let mut new_path = String::new();
        let mut j: usize = 0;
        assert(parts.drop_last().take(0) =~= Seq::<Seq<char>>::empty());
        while j < ranges.len() - 1
            invariant
                s@ == self@,
                parts == path_parts(s@),
                pieces(s@, ranges@) == parts,
                ranges@.len() >= 2,
                forall|i: int|
                    0 <= i < ranges@.len() ==> 1 <= (#[trigger] ranges@[i]).0 <= ranges@[i].1
                        <= s@.len(),
                j <= ranges@.len() - 1,
                new_path@ == join_with_slashes(parts.drop_last().take(j as int)),
            decreases ranges@.len() - 1 - j,
        {
            let (a, b) = ranges[j];
            let ghost prev = new_path@;
            assert(parts[j as int] == s@.subrange(a as int, b as int));
            let slash = "/";
            proof {
                reveal_strlit("/");
                assert(slash@ =~= seq!['/']);
            }
            new_path.append(slash);
            let piece = s.substring_char(a, b);
            new_path.append(piece);
            assert(new_path@ =~= prev + seq!['/'] + parts[j as int]);
            assert(parts.drop_last().take(j + 1).drop_last() =~= parts.drop_last().take(j as int));
            assert(parts.drop_last().take(j + 1).last() == parts[j as int]);
            j = j + 1;
        }
        assert(parts.drop_last().take(j as int) =~= parts.drop_last());
        FilePath { raw_path: new_path }
    }

    /// Returns the filename at the end of the path.
    ///
    /// Drops a `/` at the end, if there is one.
    ///
    /// If the path is just to the root directory, returns `/`
    pub fn filename(&self) -> (r: &str)
        ensures
            r@ == filename_of(self@),
    {
        proof {
            use_type_invariant(self);
        }
        let s = self.raw_path.as_str();
        let ranges = component_ranges(s);
        proof {
            reveal_strlit("/");
        }
        if ranges.len() == 0 {
            return "/";
        }
        let (a, b) = ranges[ranges.len() - 1];
        s.substring_char(a, b)
    }

    pub fn as_str(&self) -> (r: &str)
        ensures
            r@ == self@,
    {
        self.raw_path.as_str()
    }

    /// If the path ends with a /, it must be a directory, and matching the path
    /// should fail on a normal file with the same name. If it doesn't, it may
    /// be either a dir or a regular file.
    pub fn must_be_dir(&self) -> (b: bool)
        ensures
            b == spec_must_be_dir(self@),
    {
        let s = self.raw_path.as_str();
        let n = s.unicode_len();
        n > 0 && s.get_char(n - 1) == '/'
    }
}

} // verus!
