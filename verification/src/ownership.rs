//! Verified counterparts of the ownership and borrowing examples: combining
//! a list of names into a titled label, appending the long strings of a
//! source list to a destination, and taking the first word of a string.
//!
//! The same label-building function appears in several variants, one per
//! legal way of holding the input: taking ownership of it, cloning it behind
//! a shared reference, or building the result directly from a shared
//! reference. The aliasing discipline itself is enforced by the compiler;
//! what is proved here is that every variant produces the stated value.

use vstd::prelude::*;

verus! {

/// The strings of a list joined into one string, a single space between
/// neighbouring entries and nothing before the first or after the last.
pub open spec fn joined(names: Seq<Seq<char>>) -> Seq<char>
    decreases names.len(),
{
    if names.len() == 0 {
        Seq::empty()
    } else if names.len() == 1 {
        names[0]
    } else {
        joined(names.drop_last()) + seq![' '] + names.last()
    }
}

/// The greatest character length among the strings of a list, zero for an
/// empty list.
pub open spec fn max_len_of(ss: Seq<Seq<char>>) -> nat
    decreases ss.len(),
{
    if ss.len() == 0 {
        0
    } else {
        let rest = max_len_of(ss.drop_last());
        if ss.last().len() > rest {
            ss.last().len()
        } else {
            rest
        }
    }
}

/// Joins the strings of a list with single spaces.
fn join_with_spaces(names: &Vec<String>) -> (r: String)
    ensures
        r@ == joined(names.deep_view()),
{
    let ghost dv = names.deep_view();
    let mut full = String::new();
    let mut i: usize = 0;
    while i < names.len()
        invariant
            i <= names@.len(),
            dv == names.deep_view(),
            dv.len() == names@.len(),
            full@ == joined(dv.take(i as int)),
        decreases names@.len() - i,
    {
        if i > 0 {
            full.append(" ");
        }
        full.append(names[i].as_str());
        proof {
            reveal_strlit(" ");
            assert(dv.take(i + 1).drop_last() =~= dv.take(i as int));
            assert(dv.take(i + 1).last() == dv[i as int]);
            assert(dv[i as int] == names@[i as int]@);
            if i == 0 {
                assert(full@ =~= joined(dv.take(i + 1)));
            } else {
                assert(" "@ =~= seq![' ']);
                assert(full@ =~= joined(dv.take(i as int)) + seq![' '] + dv[i as int]);
                assert(full@ =~= joined(dv.take(i + 1)));
            }
        }
        i = i + 1;
    }
    proof {
        assert(dv.take(names@.len() as int) =~= dv);
    }
    full
}

/// Takes ownership of the whole list of names, appends the title `Esq.` as
/// one more entry, and joins all entries with single spaces. The caller gives
/// the list up for good.
pub fn stringify_name_with_title(name: Vec<String>) -> (r: String)
    ensures
        r@ == joined(name.deep_view().push("Esq."@)),
{
    let ghost dv = name.deep_view();
    let mut name = name;
    name.push(String::from_str("Esq."));
    proof {
        assert(name.deep_view() =~= dv.push("Esq."@));
    }
    let full = join_with_spaces(&name);
    full
}

/// Borrows the list of names read-only, clones the whole list, appends the
/// title `Esq.` to the clone, and joins the clone's entries with single
/// spaces. The caller keeps the list, at the cost of one full copy.
pub fn stringify_name_with_title_cloned(name: &Vec<String>) -> (r: String)
    ensures
        r@ == joined(name.deep_view().push("Esq."@)),
{
    let mut name_clone = name.clone();
    proof {
        assert forall|i: int| 0 <= i < name.deep_view().len() implies name_clone.deep_view()[i]
            == name.deep_view()[i] by {
            assert(cloned::<String>(name[i], name_clone[i]));
        }
        assert(name_clone.deep_view() =~= name.deep_view());
    }
    let ghost dv = name.deep_view();
    name_clone.push(String::from_str("Esq."));
    proof {
        assert(name_clone.deep_view() =~= dv.push("Esq."@));
    }
    join_with_spaces(&name_clone)
}

/// The strings of a list whose character length strictly exceeds `bound`,
/// kept in their original order.
pub open spec fn big_filter(ss: Seq<Seq<char>>, bound: nat) -> Seq<Seq<char>> {
    ss.filter(|s: Seq<char>| s.len() > bound)
}

/// Unfolds one step of `big_filter` along a growing prefix.
proof fn lemma_big_filter_step(ss: Seq<Seq<char>>, bound: nat, i: int)
    requires
        0 <= i < ss.len(),
    ensures
        big_filter(ss.take(i + 1), bound) == (if ss[i].len() > bound {
            big_filter(ss.take(i), bound).push(ss[i])
        } else {
            big_filter(ss.take(i), bound)
        }),
{
    reveal(Seq::filter);
    assert(ss.take(i + 1).drop_last() =~= ss.take(i));
    assert(ss.take(i + 1).last() == ss[i]);
}

/// Returns a read-only view of a string of greatest character length in a
/// non-empty list.
fn longest_in<'a>(v: &'a Vec<String>) -> (r: &'a String)
    requires
        v@.len() > 0,
    ensures
        r@.len() == max_len_of(v.deep_view()),
{
    let ghost dv = v.deep_view();
    let mut best: usize = 0;
    let mut best_n: usize = v[0].as_str().unicode_len();
    proof {
        assert(dv.take(1).drop_last() =~= Seq::<Seq<char>>::empty());
        assert(dv.take(1).last() == dv[0]);
        assert(dv[0] == v@[0]@);
        assert(max_len_of(Seq::<Seq<char>>::empty()) == 0);
        assert(max_len_of(dv.take(1)) == dv[0].len());
    }
    let mut i: usize = 1;
    while i < v.len()
        invariant
            1 <= i <= v@.len(),
            dv == v.deep_view(),
            dv.len() == v@.len(),
            best < i,
            best_n == dv[best as int].len(),
            best_n as nat == max_len_of(dv.take(i as int)),
        decreases v@.len() - i,
    {
        let n = v[i].as_str().unicode_len();
        proof {
            assert(dv[i as int] == v@[i as int]@);
            assert(dv.take(i + 1).drop_last() =~= dv.take(i as int));
            assert(dv.take(i + 1).last() == dv[i as int]);
        }
        if n > best_n {
            best = i;
            best_n = n;
        }
        i = i + 1;
    }
    proof {
        assert(dv.take(v@.len() as int) =~= dv);
    }
    &v[best]
}

/// Collects clones of exactly those strings of `src` whose character length
/// strictly exceeds `bound`, in their original order.
fn collect_big(src: &[String], bound: usize) -> (r: Vec<String>)
    ensures
        r.deep_view() == big_filter(src.deep_view(), bound as nat),
{
    let ghost sv = src.deep_view();
    let mut out: Vec<String> = Vec::new();
    proof {
        reveal(Seq::filter);
        assert(sv.take(0) =~= Seq::<Seq<char>>::empty());
        assert(out.deep_view() =~= big_filter(sv.take(0), bound as nat));
    }
    let mut i: usize = 0;
    while i < src.len()
        invariant
            i <= sv.len(),
            sv == src.deep_view(),
            sv.len() == src@.len(),
            out.deep_view() == big_filter(sv.take(i as int), bound as nat),
        decreases sv.len() - i,
    {
        proof {
            assert(sv[i as int] == src@[i as int]@);
        }
        let n = src[i].as_str().unicode_len();
        if n > bound {
            let ghost pre = out.deep_view();
            out.push(src[i].clone());
            proof {
                assert(out.deep_view() =~= pre.push(sv[i as int]));
            }
        }
        proof {
            lemma_big_filter_step(sv, bound as nat, i as int);
        }
        i = i + 1;
    }
    proof {
        assert(sv.take(sv.len() as int) =~= sv);
    }
    out
}

/// Appends to `dst` a clone of every string of `src` whose character length
/// strictly exceeds the greatest length present in `dst` before any addition;
/// every comparison uses that original greatest length, never one updated by
/// the additions themselves. This variant first copies the whole largest
/// string out of `dst`, so that no read-only view of `dst` is alive when
/// `dst` is mutated.
pub fn add_big_strings(dst: &mut Vec<String>, src: &[String])
    requires
        old(dst)@.len() > 0,
    ensures
        final(dst).deep_view() == old(dst).deep_view() + big_filter(
            src.deep_view(),
            max_len_of(old(dst).deep_view()),
        ),
{
    let ghost dv0 = old(dst).deep_view();
    let ghost sv = src.deep_view();
    let largest: String = longest_in(&*dst).clone();
    proof {
        reveal(Seq::filter);
        assert(sv.take(0) =~= Seq::<Seq<char>>::empty());
        assert(dst.deep_view() =~= dv0 + big_filter(sv.take(0), max_len_of(dv0)));
    }
    let mut i: usize = 0;
    while i < src.len()
        invariant
            i <= sv.len(),
            sv == src.deep_view(),
            sv.len() == src@.len(),
            largest@.len() == max_len_of(dv0),
            dst.deep_view() == dv0 + big_filter(sv.take(i as int), max_len_of(dv0)),
        decreases sv.len() - i,
    {
        proof {
            assert(sv[i as int] == src@[i as int]@);
        }
        let n = src[i].as_str().unicode_len();
        if n > largest.as_str().unicode_len() {
            let ghost pre = dst.deep_view();
            dst.push(src[i].clone());
            proof {
                assert(dst.deep_view() =~= pre.push(sv[i as int]));
            }
        }
        proof {
            lemma_big_filter_step(sv, max_len_of(dv0), i as int);
            assert(dst.deep_view() =~= dv0 + big_filter(sv.take(i + 1), max_len_of(dv0)));
        }
        i = i + 1;
    }
    proof {
        assert(sv.take(sv.len() as int) =~= sv);
    }
}

/// Appends to `dst` a clone of every string of `src` whose character length
/// strictly exceeds the greatest length present in `dst` before any addition.
/// This variant runs a read-only pass first, collecting everything to add,
/// and performs all mutation of `dst` afterwards in one step.
pub fn add_big_strings_two_pass(dst: &mut Vec<String>, src: &[String])
    requires
        old(dst)@.len() > 0,
    ensures
        final(dst).deep_view() == old(dst).deep_view() + big_filter(
            src.deep_view(),
            max_len_of(old(dst).deep_view()),
        ),
{
    let largest: &String = longest_in(&*dst);
    let bound: usize = largest.as_str().unicode_len();
    let to_add: Vec<String> = collect_big(src, bound);
    let ghost pre = dst.deep_view();
    let ghost added = to_add.deep_view();
    dst.extend_from_slice(to_add.as_slice());
    proof {
        assert forall|i: int| 0 <= i < dst.deep_view().len() implies dst.deep_view()[i] == (pre
            + added)[i] by {
            if i >= pre.len() {
                assert(cloned::<String>(to_add@[i - pre.len()], dst@[i]));
            }
        }
        assert(dst.deep_view() =~= pre + added);
    }
}

/// Appends to `dst` a clone of every string of `src` whose character length
/// strictly exceeds the greatest length present in `dst` before any addition.
/// This variant copies out only the scalar length of the largest string, not
/// the string itself, before mutating `dst`.
pub fn add_big_strings_by_len(dst: &mut Vec<String>, src: &[String])
    requires
        old(dst)@.len() > 0,
    ensures
        final(dst).deep_view() == old(dst).deep_view() + big_filter(
            src.deep_view(),
            max_len_of(old(dst).deep_view()),
        ),
{
    let ghost dv0 = old(dst).deep_view();
    let ghost sv = src.deep_view();
    let largest_len: usize = longest_in(&*dst).as_str().unicode_len();
    proof {
        reveal(Seq::filter);
        assert(sv.take(0) =~= Seq::<Seq<char>>::empty());
        assert(dst.deep_view() =~= dv0 + big_filter(sv.take(0), max_len_of(dv0)));
    }
    let mut i: usize = 0;
    while i < src.len()
        invariant
            i <= sv.len(),
            sv == src.deep_view(),
            sv.len() == src@.len(),
            largest_len as nat == max_len_of(dv0),
            dst.deep_view() == dv0 + big_filter(sv.take(i as int), max_len_of(dv0)),
        decreases sv.len() - i,
    {
        proof {
            assert(sv[i as int] == src@[i as int]@);
        }
        let n = src[i].as_str().unicode_len();
        if n > largest_len {
            let ghost pre = dst.deep_view();
            dst.push(src[i].clone());
            proof {
                assert(dst.deep_view() =~= pre.push(sv[i as int]));
            }
        }
        proof {
            lemma_big_filter_step(sv, max_len_of(dv0), i as int);
            assert(dst.deep_view() =~= dv0 + big_filter(sv.take(i + 1), max_len_of(dv0)));
        }
        i = i + 1;
    }
    proof {
        assert(sv.take(sv.len() as int) =~= sv);
    }
}

/// Returns the longest prefix of `s` that contains no space: everything up
/// to, and not including, the first space character, or all of `s` when it
/// has none.
pub fn first_word<'a>(s: &'a String) -> (r: &'a str)
    ensures
        r@.len() <= s@.len(),
        r@ == s@.subrange(0, r@.len() as int),
        forall|i: int| 0 <= i < r@.len() ==> s@[i] != ' ',
        r@.len() < s@.len() ==> s@[r@.len() as int] == ' ',
{
    let n = s.as_str().unicode_len();
    let mut i: usize = 0;
    while i < n
        invariant
            i <= n,
            n == s@.len(),
            forall|j: int| 0 <= j < i ==> s@[j] != ' ',
        decreases n - i,
    {
        let c = s.as_str().get_char(i);
        if c == ' ' {
            let r = s.as_str().substring_char(0, i);
            return r;
        }
        i = i + 1;
    }
    proof {
        assert(s@.subrange(0, s@.len() as int) =~= s@);
    }
    s.as_str()
}

/// Borrows the list of names read-only, joins its entries with single spaces,
/// and appends the title directly to the joined result, avoiding the extra
/// copy of the whole list.
pub fn stringify_name_with_title_joined(name: &Vec<String>) -> (r: String)
    ensures
        r@ == joined(name.deep_view()) + " Esq."@,
{
    let mut full = join_with_spaces(name);
    full.append(" Esq.");
    full
}

} // verus!
