//! The stored name of an object: its content identifier and an extension,
//! taken from sniffing first and from the declared filename otherwise.
use vstd::prelude::*;
use vstd::string::StrSliceExecFns;
use vstd::string::StringExecFns;

verus! {

/// The part of `s` after the last occurrence of `c` (all of `s` without one).
pub open spec fn after_last(s: Seq<char>, c: char) -> Seq<char>
    decreases s.len(),
{
    if s.len() == 0 {
        s
    } else if s.last() == c {
        Seq::empty()
    } else {
        after_last(s.drop_last(), c).push(s.last())
    }
}

/// The extension of a declared filename: the text after the last dot of its
/// final `/`-separated segment, provided the dot is not the segment's first
/// character and the text after it is not empty.
pub open spec fn declared_extension(name: Seq<char>) -> Option<Seq<char>> {
    let seg = after_last(name, '/');
    let ext = after_last(seg, '.');
    if ext.len() > 0 && ext.len() + 2 <= seg.len() {
        Some(ext)
    } else {
        None
    }
}

/// The extension an upload is stored under: the sniffed one if there is
/// one, else that of the declared filename.
pub open spec fn chosen_extension(sniffed: Option<Seq<char>>, filename: Option<Seq<char>>) -> Option<
    Seq<char>,
> {
    match sniffed {
        Some(e) => Some(e),
        None => match filename {
            Some(f) => declared_extension(f),
            None => None,
        },
    }
}

proof fn lemma_after_last_step(s: Seq<char>, i: int, c: char)
    requires
        0 <= i < s.len(),
    ensures
        s.take(i + 1).drop_last() == s.take(i),
        s.take(i + 1).last() == s[i],
        s[i] == c ==> after_last(s.take(i + 1), c) == Seq::<char>::empty(),
        s[i] != c ==> after_last(s.take(i + 1), c) == after_last(s.take(i), c).push(s[i]),
{
    assert(s.take(i + 1).drop_last() =~= s.take(i));
}

proof fn lemma_after_last_sub_step(s: Seq<char>, lo: int, i: int, c: char)
    requires
        0 <= lo <= i < s.len(),
    ensures
        s[i] == c ==> after_last(s.subrange(lo, i + 1), c) == Seq::<char>::empty(),
        s[i] != c ==> after_last(s.subrange(lo, i + 1), c) == after_last(s.subrange(lo, i), c).push(
            s[i],
        ),
{
    assert(s.subrange(lo, i + 1).drop_last() =~= s.subrange(lo, i));
}

proof fn lemma_after_last_append(a: Seq<char>, b: Seq<char>, c: char)
    requires
        forall|i: int| 0 <= i < b.len() ==> b[i] != c,
    ensures
        after_last(a + b, c) == after_last(a, c) + b,
    decreases b.len(),
{
    if b.len() == 0 {
        assert(a + b =~= a);
        assert(after_last(a, c) + b =~= after_last(a, c));
    } else {
        let b0 = b.drop_last();
        lemma_after_last_append(a, b0, c);
        assert((a + b).drop_last() =~= a + b0);
        assert(after_last(a, c) + b0.push(b.last()) =~= after_last(a, c) + b);
        assert(b0.push(b.last()) =~= b);
    }
}

/// What follows the last `c` is a suffix free of `c`.
pub proof fn lemma_after_last_suffix(s: Seq<char>, c: char)
    ensures
        after_last(s, c).len() <= s.len(),
        after_last(s, c) == s.subrange(s.len() - after_last(s, c).len(), s.len() as int),
        forall|i: int| 0 <= i < after_last(s, c).len() ==> after_last(s, c)[i] != c,
    decreases s.len(),
{
    if s.len() == 0 {
        assert(s.subrange(0, 0) =~= s);
    } else if s.last() == c {
        assert(s.subrange(s.len() as int, s.len() as int) =~= Seq::<char>::empty());
    } else {
        let t = s.drop_last();
        lemma_after_last_suffix(t, c);
        let n = after_last(s, c).len();
        assert(after_last(s, c) =~= s.subrange(s.len() - n, s.len() as int));
    }
}

/// A declared extension is not empty and holds neither `/` nor `.`.
pub proof fn lemma_declared_extension_clean(name: Seq<char>)
    requires
        declared_extension(name) is Some,
    ensures
        declared_extension(name)->0.len() > 0,
        forall|i: int|
            0 <= i < declared_extension(name)->0.len() ==> declared_extension(name)->0[i] != '/'
                && declared_extension(name)->0[i] != '.',
{
    let seg = after_last(name, '/');
    let ext = after_last(seg, '.');
    lemma_after_last_suffix(name, '/');
    lemma_after_last_suffix(seg, '.');
    assert forall|i: int| 0 <= i < ext.len() implies ext[i] != '/' && ext[i] != '.' by {
        assert(ext[i] == seg[seg.len() - ext.len() + i]);
    }
}

/// A filename made of a stem that does not end in `/`, a dot and an
/// extension free of dots and slashes declares that extension.
pub proof fn lemma_declared_extension_of(stem: Seq<char>, ext: Seq<char>)
    requires
        stem.len() > 0,
        stem.last() != '/',
        ext.len() > 0,
        forall|i: int| 0 <= i < ext.len() ==> ext[i] != '.' && ext[i] != '/',
    ensures
        declared_extension(stem + seq!['.'] + ext) == Some(ext),
{
    let dotted = seq!['.'] + ext;
    assert(forall|i: int| 0 <= i < dotted.len() ==> dotted[i] != '/') by {
        assert forall|i: int| 0 <= i < dotted.len() implies dotted[i] != '/' by {
            if i > 0 {
                assert(dotted[i] == ext[i - 1]);
            }
        }
    }
    assert(stem + seq!['.'] + ext =~= stem + dotted);
    lemma_after_last_append(stem, dotted, '/');
    let seg0 = after_last(stem, '/');
    assert(seg0 == after_last(stem.drop_last(), '/').push(stem.last()));
    assert(seg0.len() > 0);
    assert(seg0 + dotted =~= seg0.push('.') + ext);
    lemma_after_last_append(seg0.push('.'), ext, '.');
    assert(seg0.push('.').drop_last() =~= seg0);
    assert(after_last(seg0.push('.'), '.') == Seq::<char>::empty());
    assert(Seq::<char>::empty() + ext =~= ext);
}

/// Extension of a declared filename, as `declared_extension` describes it.
pub fn extension_of_filename(name: &str) -> (r: Option<String>)
    ensures
        r is Some <==> declared_extension(name@) is Some,
        r is Some ==> declared_extension(name@) == Some(r->0@),
{
    let n = name.unicode_len();
    let mut seg: usize = 0;
    let mut ext: usize = 0;
    let mut i: usize = 0;
    while i < n
        invariant
            n == name@.len(),
            seg <= ext <= i <= n,
            after_last(name@.take(i as int), '/') == name@.subrange(seg as int, i as int),
            after_last(name@.subrange(seg as int, i as int), '.') == name@.subrange(
                ext as int,
                i as int,
            ),
        decreases n - i,
    {
        let c = name.get_char(i);
        proof {
            lemma_after_last_step(name@, i as int, '/');
            lemma_after_last_sub_step(name@, seg as int, i as int, '.');
        }
        if c == '/' {
            seg = i + 1;
            ext = i + 1;
            assert(name@.subrange(seg as int, i + 1) =~= Seq::<char>::empty());
        } else if c == '.' {
            ext = i + 1;
            assert(name@.subrange(seg as int, i + 1) =~= name@.subrange(seg as int, i as int).push(c));
            assert(name@.subrange(ext as int, i + 1) =~= Seq::<char>::empty());
        } else {
            assert(name@.subrange(seg as int, i + 1) =~= name@.subrange(seg as int, i as int).push(c));
            assert(name@.subrange(ext as int, i + 1) =~= name@.subrange(ext as int, i as int).push(c));
        }
        i = i + 1;
    }
    assert(name@.take(n as int) =~= name@);
    if ext < n && ext - seg >= 2 {
        let e = name.substring_char(ext, n);
        Some(String::from_str(e))
    } else {
        None
    }
}

/// The extension to store an upload under, given what sniffing found and
/// the declared filename.
pub fn choose_extension(sniffed: Option<String>, filename: Option<&str>) -> (r: Option<String>)
    ensures
        r is Some <==> chosen_extension(opt_string_view(sniffed), opt_str_view(filename)) is Some,
        r is Some ==> chosen_extension(opt_string_view(sniffed), opt_str_view(filename)) == Some(
            r->0@,
        ),
{
    match sniffed {
        Some(e) => Some(e),
        None => match filename {
            Some(f) => extension_of_filename(f),
            None => None,
        },
    }
}

/// The characters of an optional owned string.
pub open spec fn opt_string_view(o: Option<String>) -> Option<Seq<char>> {
    match o {
        Some(s) => Some(s@),
        None => None,
    }
}

/// The characters of an optional borrowed string.
pub open spec fn opt_str_view(o: Option<&str>) -> Option<Seq<char>> {
    match o {
        Some(s) => Some(s@),
        None => None,
    }
}

/// The name of a stored object: `{id}.{ext}`.
pub struct StoredName {
    pub id: String,
    pub ext: String,
}

impl StoredName {
    /// The object's file name under the storage root.
    pub open spec fn file_name_spec(&self) -> Seq<char> {
        self.id@ + seq!['.'] + self.ext@
    }

    /// The object's file name under the storage root, `{id}.{ext}`.
    pub fn file_name(&self) -> (r: String)
        ensures
            r@ == self.file_name_spec(),
    {
        let mut r = self.id.clone();
        proof {
            reveal_strlit(".");
        }
        r.append(".");
        r.append(self.ext.as_str());
        r
    }

    /// The viewer reference to the same object, `v/{id}.{ext}`.
    pub fn viewer_name(&self) -> (r: String)
        ensures
            r@ == seq!['v', '/'] + self.file_name_spec(),
    {
        proof {
            reveal_strlit("v/");
        }
        let mut r = String::from_str("v/");
        let f = self.file_name();
        r.append(f.as_str());
        r
    }
}

} // verus!
