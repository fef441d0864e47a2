//! Verified string utilities: equality, substring search, joining, and
//! the comma-separated tag grammar; plus trusted wrappers for the two
//! std case/whitespace transformations the tracker relies on.

use vstd::prelude::*;

verus! {

/// Whether two string slices hold the same characters.
pub fn eq_str(a: &str, b: &str) -> (r: bool)
    ensures
        r == (a@ == b@),
{
    let sa = String::from_str(a);
    let sb = String::from_str(b);
    sa == sb
}

/// `needle` occurs contiguously inside `hay`.
pub open spec fn contains_sub(hay: Seq<char>, needle: Seq<char>) -> bool {
    exists|k: int|
        0 <= k && k + needle.len() <= hay.len() && #[trigger] hay.subrange(k, k + needle.len())
            == needle
}

/// Whether `needle` matches `hay` at position `k`.
fn matches_at(hay: &str, needle: &str, k: usize) -> (r: bool)
    requires
        k + needle@.len() <= hay@.len(),
    ensures
        r == (hay@.subrange(k as int, k as int + needle@.len()) == needle@),
{
    let n = needle.unicode_len();
    let h = hay.unicode_len();
    let mut j: usize = 0;
    while j < n
        invariant
            j <= n,
            n == needle@.len(),
            h == hay@.len(),
            k + n <= hay@.len(),
            forall|p: int| 0 <= p < j ==> hay@[k + p] == needle@[p],
        decreases n - j,
    {
        if hay.get_char(k + j) != needle.get_char(j) {
            proof {
                assert(hay@.subrange(k as int, k as int + needle@.len())[j as int] == hay@[k + j]);
            }
            return false;
        }
        j = j + 1;
    }
    proof {
        assert(hay@.subrange(k as int, k as int + needle@.len()) =~= needle@);
    }
    true
}

/// Substring search: whether `needle` occurs anywhere inside `hay`.
pub fn str_contains(hay: &str, needle: &str) -> (r: bool)
    ensures
        r == contains_sub(hay@, needle@),
{
    let h = hay.unicode_len();
    let n = needle.unicode_len();
    if n == 0 {
        proof {
            assert(hay@.subrange(0, 0 + needle@.len() as int) =~= needle@);
        }
        return true;
    }
    if n > h {
        proof {
            assert(!contains_sub(hay@, needle@));
        }
        return false;
    }
    let mut k: usize = 0;
    while k < h - n + 1
        invariant
            h == hay@.len(),
            n == needle@.len(),
            1 <= n <= h,
            k <= h - n + 1,
            forall|q: int|
                0 <= q < k ==> #[trigger] hay@.subrange(q, q + needle@.len()) != needle@,
        decreases h - n + 1 - k,
    {
        if matches_at(hay, needle, k) {
            return true;
        }
        k = k + 1;
    }
    proof {
        assert(forall|q: int|
            0 <= q && q + needle@.len() <= hay@.len() ==> #[trigger] hay@.subrange(
                q,
                q + needle@.len(),
            ) != needle@);
    }
    false
}

/// The characters of `parts` joined with `sep` between consecutive parts.
pub open spec fn join_sep(parts: Seq<Seq<char>>, sep: Seq<char>) -> Seq<char>
    decreases parts.len(),
{
    if parts.len() == 0 {
        Seq::empty()
    } else if parts.len() == 1 {
        parts[0]
    } else {
        join_sep(parts.drop_last(), sep) + sep + parts.last()
    }
}

/// Joins the strings of `v` with the separator `sep`.
pub fn join_with(v: &Vec<String>, sep: &str) -> (r: String)
    ensures
        r@ == join_sep(crate::model::str_views(v@), sep@),
{
    let ghost parts = crate::model::str_views(v@);
    let mut r = String::new();
    let mut i: usize = 0;
    proof {
        assert(parts.take(0) =~= Seq::<Seq<char>>::empty());
    }
    while i < v.len()
        invariant
            i <= v@.len(),
            parts == crate::model::str_views(v@),
            parts.len() == v@.len(),
            r@ == join_sep(parts.take(i as int), sep@),
        decreases v@.len() - i,
    {
        if i > 0 {
            r.append(sep);
        }
        r.append(v[i].as_str());
        proof {
            assert(parts.take(i + 1).drop_last() =~= parts.take(i as int));
            assert(parts.take(i + 1).last() == parts[i as int]);
        }
        i = i + 1;
    }
    proof {
        assert(parts.take(v@.len() as int) =~= parts);
    }
    r
}

/// The lowercase form of a string, as Unicode default case mapping gives it.
pub uninterp spec fn lower_of(s: Seq<char>) -> Seq<char>;

/// Relies on str::to_lowercase: the result depends on the characters alone,
/// and an empty string stays empty.
#[verifier::external_body]
pub(crate) fn lowercase(s: &str) -> (r: String)
    ensures
        r@ == lower_of(s@),
        s@.len() == 0 ==> r@.len() == 0,
{
    s.to_lowercase()
}

/// A string with its leading and trailing whitespace removed.
pub uninterp spec fn trim_of(s: Seq<char>) -> Seq<char>;

/// Relies on str::trim: the result depends on the characters alone, is never
/// longer than the input, and an empty string stays empty.
#[verifier::external_body]
fn trim(s: &str) -> (r: String)
    ensures
        r@ == trim_of(s@),
        r@.len() <= s@.len(),
        s@.len() == 0 ==> r@.len() == 0,
{
    s.trim().to_string()
}

/// The comma-separated pieces of a string: splitting the empty string
/// gives one empty piece, and every comma opens a new piece.
pub open spec fn split_commas(s: Seq<char>) -> Seq<Seq<char>>
    decreases s.len(),
{
    if s.len() == 0 {
        seq![Seq::empty()]
    } else if s.last() == ',' {
        split_commas(s.drop_last()).push(Seq::empty())
    } else {
        let p = split_commas(s.drop_last());
        p.update(p.len() - 1, p.last().push(s.last()))
    }
}

proof fn lemma_split_commas_nonempty(s: Seq<char>)
    ensures
        split_commas(s).len() >= 1,
    decreases s.len(),
{
    if s.len() > 0 {
        lemma_split_commas_nonempty(s.drop_last());
    }
}

/// The tags kept from a sequence of raw pieces: each piece trimmed, the
/// empty ones dropped, order preserved.
pub open spec fn kept_tags(pieces: Seq<Seq<char>>) -> Seq<Seq<char>>
    decreases pieces.len(),
{
    if pieces.len() == 0 {
        Seq::empty()
    } else {
        let rest = kept_tags(pieces.drop_last());
        let t = trim_of(pieces.last());
        if t.len() > 0 {
            rest.push(t)
        } else {
            rest
        }
    }
}

/// The tags read from a raw comma-separated input string.
pub open spec fn tags_of(s: Seq<char>) -> Seq<Seq<char>> {
    kept_tags(split_commas(s))
}

/// Splits a string on commas.
fn split_on_commas(s: &str) -> (r: Vec<String>)
    ensures
        crate::model::str_views(r@) == split_commas(s@),
{
    let len = s.unicode_len();
    let mut r: Vec<String> = Vec::new();
    let mut start: usize = 0;
    let mut i: usize = 0;
    proof {
        assert(s@.take(0) =~= Seq::<char>::empty());
        assert(s@.subrange(0, 0) =~= Seq::<char>::empty());
        assert(split_commas(s@.take(0)) =~= crate::model::str_views(r@).push(
            s@.subrange(0, 0),
        ));
    }
    while i < len
        invariant
            start <= i <= len,
            len == s@.len(),
            split_commas(s@.take(i as int)) == crate::model::str_views(r@).push(
                s@.subrange(start as int, i as int),
            ),
        decreases len - i,
    {
        let c = s.get_char(i);
        proof {
            assert(s@.take(i + 1).drop_last() =~= s@.take(i as int));
            assert(s@.take(i + 1).last() == s@[i as int]);
        }
        if c == ',' {
            let piece = String::from_str(s.substring_char(start, i));
            r.push(piece);
            start = i + 1;
            proof {
                assert(crate::model::str_views(r@) =~= crate::model::str_views(
                    r@.drop_last(),
                ).push(r@.last()@));
                assert(s@.subrange(start as int, i + 1) =~= Seq::<char>::empty());
                assert(split_commas(s@.take(i + 1)) =~= crate::model::str_views(r@).push(
                    s@.subrange(start as int, i + 1),
                ));
            }
        } else {
            proof {
                let p = split_commas(s@.take(i as int));
                lemma_split_commas_nonempty(s@.take(i as int));
                assert(s@.subrange(start as int, i + 1) =~= s@.subrange(
                    start as int,
                    i as int,
                ).push(s@[i as int]));
                assert(p.update(p.len() - 1, p.last().push(s@[i as int]))
                    =~= crate::model::str_views(r@).push(s@.subrange(start as int, i + 1)));
            }
        }
        i = i + 1;
    }
    let piece = String::from_str(s.substring_char(start, len));
    r.push(piece);
    proof {
        assert(s@.take(len as int) =~= s@);
        assert(crate::model::str_views(r@) =~= crate::model::str_views(r@.drop_last()).push(
            r@.last()@,
        ));
    }
    r
}

/// Reads a raw comma-separated tag input: splits on commas, trims every
/// piece and drops the pieces that trim to nothing.
pub fn parse_tags(s: &str) -> (r: Vec<String>)
    ensures
        crate::model::str_views(r@) == tags_of(s@),
{
    let pieces = split_on_commas(s);
    let ghost piece_views = crate::model::str_views(pieces@);
    let mut r: Vec<String> = Vec::new();
    let mut i: usize = 0;
    proof {
        assert(piece_views.take(0) =~= Seq::<Seq<char>>::empty());
        assert(crate::model::str_views(r@) =~= Seq::<Seq<char>>::empty());
    }
    while i < pieces.len()
        invariant
            i <= pieces@.len(),
            piece_views == crate::model::str_views(pieces@),
            piece_views.len() == pieces@.len(),
            crate::model::str_views(r@) == kept_tags(piece_views.take(i as int)),
        decreases pieces@.len() - i,
    {
        let t = trim(pieces[i].as_str());
        proof {
            assert(piece_views.take(i + 1).drop_last() =~= piece_views.take(i as int));
            assert(piece_views.take(i + 1).last() == piece_views[i as int]);
        }
        if t.unicode_len() > 0 {
            r.push(t);
            proof {
                assert(crate::model::str_views(r@) =~= crate::model::str_views(
                    r@.drop_last(),
                ).push(r@.last()@));
            }
        }
        i = i + 1;
    }
    proof {
        assert(piece_views.take(pieces@.len() as int) =~= piece_views);
    }
    r
}

} // verus!
