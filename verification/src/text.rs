//! Package names, and the order of texts.

use vstd::prelude::*;
use vstd::relations::{sorted_by, total_ordering};

verus! {

/// The short name of a package: its origin and its name, joined by a slash.
pub open spec fn short_name(origin: Seq<char>, name: Seq<char>) -> Seq<char> {
    origin.push('/') + name
}

/// The origin that a short name starts with: all that stands before its first slash.
pub open spec fn origin_part(short: Seq<char>) -> Seq<char>
    decreases short.len(),
{
    if short.len() == 0 || short[0] == '/' {
        Seq::empty()
    } else {
        seq![short[0]] + origin_part(short.drop_first())
    }
}

/// `a` and `b` first differ at `at`, where `a` has the lesser character.
pub open spec fn lesser_at(a: Seq<char>, b: Seq<char>, at: int) -> bool {
    &&& 0 <= at < a.len()
    &&& at < b.len()
    &&& forall|i: int| 0 <= i < at ==> a[i] == b[i]
    &&& a[at] < b[at]
}

/// The lexicographic order of texts by their characters' code points.
pub open spec fn text_le(a: Seq<char>, b: Seq<char>) -> bool {
    a.is_prefix_of(b) || exists|at: int| lesser_at(a, b, at)
}

/// No text stands before a lesser one.
pub open spec fn sorted_texts(texts: Seq<Seq<char>>) -> bool {
    sorted_by(texts, |a: Seq<char>, b: Seq<char>| text_le(a, b))
}

/// Joins an origin and a name into the short name of a package.
pub fn short_ident(origin: &String, name: &String) -> (short: String)
    ensures
        short@ == short_name(origin@, name@),
{
    let mut short = origin.clone();
    proof {
        reveal_strlit("/");
    }
    short.append("/");
    assert(short@ =~= origin@.push('/'));
    short.append(name.as_str());
    short
}

/// Takes the origin off a short name.
pub fn origin_of(short: &String) -> (origin: String)
    ensures
        origin@ == origin_part(short@),
{
    let len: usize = short.as_str().unicode_len();
    let mut end: usize = 0;
    assert(short@.skip(0) =~= short@);
    while end < len && short.as_str().get_char(end) != '/'
        invariant
            len == short@.len(),
            end <= len,
            origin_part(short@) =~= short@.take(end as int) + origin_part(short@.skip(end as int)),
        decreases len - end,
    {
        assert(short@.skip(end as int).drop_first() =~= short@.skip(end + 1));
        end = end + 1;
    }
    let origin = short.as_str().substring_char(0, end).to_owned();
    assert(origin@ =~= short@.take(end as int));
    origin
}

/// The origin of a short name is the origin it was made with, if that holds no slash.
pub proof fn origin_of_short_name(origin: Seq<char>, name: Seq<char>)
    requires
        !origin.contains('/'),
    ensures
        origin_part(short_name(origin, name)) == origin,
    decreases origin.len(),
{
    let short = short_name(origin, name);
    if origin.len() > 0 {
        assert(origin[0] != '/');
        assert(!origin.drop_first().contains('/')) by {
            assert forall|i: int| 0 <= i < origin.drop_first().len() implies origin.drop_first()[i] != '/' by {
                assert(origin.contains(origin[i + 1]));
            }
        }
        origin_of_short_name(origin.drop_first(), name);
        assert(short.drop_first() =~= short_name(origin.drop_first(), name));
    }
    assert(origin_part(short) =~= origin);
}

/// Where two texts first differ, or the length of the shorter one.
proof fn first_difference(a: Seq<char>, b: Seq<char>) -> (at: int)
    ensures
        0 <= at <= a.len(),
        at <= b.len(),
        forall|i: int| 0 <= i < at ==> a[i] == b[i],
        at == a.len() || at == b.len() || a[at] != b[at],
    decreases a.len(),
{
    if a.len() == 0 || b.len() == 0 || a[0] != b[0] {
        0
    } else {
        let rest = first_difference(a.drop_first(), b.drop_first());
        assert forall|i: int| 0 <= i < rest + 1 implies a[i] == b[i] by {
            if i > 0 {
                assert(a.drop_first()[i - 1] == b.drop_first()[i - 1]);
            }
        }
        rest + 1
    }
}

proof fn text_le_transitive(a: Seq<char>, b: Seq<char>, c: Seq<char>)
    requires
        text_le(a, b),
        text_le(b, c),
    ensures
        text_le(a, c),
{
    let at = first_difference(a, c);
    if at < a.len() {
        let ab = first_difference(a, b);
        let bc = first_difference(b, c);
        if at == c.len() || a[at] > c[at] {
            assert(false);
        }
        assert(lesser_at(a, c, at));
    }
}

/// The order of texts is total.
pub proof fn text_order_is_total()
    ensures
        total_ordering(|a: Seq<char>, b: Seq<char>| text_le(a, b)),
{
    let le = |a: Seq<char>, b: Seq<char>| text_le(a, b);
    assert forall|a: Seq<char>, b: Seq<char>| #[trigger] le(a, b) && #[trigger] le(b, a) implies a == b by {
        let at = first_difference(a, b);
        assert(a =~= b);
    }
    assert forall|a: Seq<char>, b: Seq<char>, c: Seq<char>| #[trigger]
        le(a, b) && #[trigger] le(b, c) implies le(a, c) by {
        text_le_transitive(a, b, c);
    }
    assert forall|a: Seq<char>, b: Seq<char>| #[trigger] le(a, b) || #[trigger] le(b, a) by {
        let at = first_difference(a, b);
        if at < a.len() && at < b.len() {
            assert(lesser_at(a, b, at) || lesser_at(b, a, at));
        }
    }
}

/// A short name is made of the origin, one slash and the name, in this order.
pub proof fn short_ident_joins(origin: String, name: String, short: String)
    requires
        call_ensures(short_ident, (&origin, &name), short),
    ensures
        short@.len() == origin@.len() + 1 + name@.len(),
        short@.take(origin@.len() as int) == origin@,
        short@[origin@.len() as int] == '/',
        short@.skip(origin@.len() as int + 1) == name@,
{
    assert(short@.take(origin@.len() as int) =~= origin@);
    assert(short@.skip(origin@.len() as int + 1) =~= name@);
}

/// An origin that was taken off a short name holds no slash, and is all that stands before the
/// first one, or all there is.
pub proof fn origin_ends_at_the_first_slash(short: String, origin: String)
    requires
        call_ensures(origin_of, (&short,), origin),
    ensures
        !origin@.contains('/'),
        origin@.is_prefix_of(short@),
        origin@ == short@ || (origin@.len() < short@.len() && short@[origin@.len() as int] == '/'),
{
    origin_part_ends_at_the_first_slash(short@);
}

/// The origin of a name, taken as text, ends at the first slash.
pub proof fn origin_part_ends_at_the_first_slash(short: Seq<char>)
    ensures
        !origin_part(short).contains('/'),
        origin_part(short).is_prefix_of(short),
        origin_part(short) == short || (origin_part(short).len() < short.len()
            && short[origin_part(short).len() as int] == '/'),
    decreases short.len(),
{
    let origin = origin_part(short);
    if short.len() > 0 && short[0] != '/' {
        let rest = short.drop_first();
        let tail = origin_part(rest);
        origin_part_ends_at_the_first_slash(rest);
        assert(origin == seq![short[0]] + tail);
        assert forall|i: int| 0 <= i < origin.len() implies #[trigger] origin[i] != '/' && origin[i]
            == short[i] by {
            if i > 0 {
                assert(tail.contains(tail[i - 1]));
                assert(tail[i - 1] == rest[i - 1]);
            }
        }
        assert(origin.is_prefix_of(short));
        if tail == rest {
            assert(origin =~= short);
        } else {
            assert(short[origin.len() as int] == rest[tail.len() as int]);
        }
    } else {
        assert(origin.is_prefix_of(short));
        if short.len() == 0 {
            assert(origin =~= short);
        }
    }
}

/// Of two texts that first differ in one character, the one with the lesser character comes
/// first, whatever stands behind it.
pub proof fn lesser_character_comes_first(
    common: Seq<char>,
    lesser: char,
    greater: char,
    rest: Seq<char>,
    other: Seq<char>,
)
    requires
        lesser < greater,
    ensures
        text_le(common.push(lesser) + rest, common.push(greater) + other),
        !text_le(common.push(greater) + other, common.push(lesser) + rest),
{
    let a = common.push(lesser) + rest;
    let b = common.push(greater) + other;
    let at = common.len() as int;
    assert(a[at] == lesser && b[at] == greater);
    assert(lesser_at(a, b, at));
    assert forall|i: int| !lesser_at(b, a, i) by {
        if lesser_at(b, a, i) {
            if i > at {
                assert(b[at] == a[at]);
            }
            if i < at {
                assert(a[i] == common[i] && b[i] == common[i]);
            }
        }
    }
}

/// A text comes before what continues it, and not after.
pub proof fn shorter_text_comes_first(text: Seq<char>, rest: Seq<char>)
    ensures
        text_le(text, text + rest),
        rest.len() > 0 ==> !text_le(text + rest, text),
{
    assert(text.is_prefix_of(text + rest));
    assert forall|i: int| !lesser_at(text + rest, text, i) by {}
}

/// Texts are in ascending order if and only if no text stands before a lesser one.
pub proof fn sorted_texts_ascend(texts: Seq<Seq<char>>)
    ensures
        sorted_texts(texts) <==> forall|i: int, j: int|
            0 <= i < j < texts.len() ==> text_le(#[trigger] texts[i], #[trigger] texts[j]),
{
    let le = |a: Seq<char>, b: Seq<char>| text_le(a, b);
    if sorted_texts(texts) {
        assert forall|i: int, j: int| 0 <= i < j < texts.len() implies text_le(
            #[trigger] texts[i],
            #[trigger] texts[j],
        ) by {
            assert(le(texts[i], texts[j]));
        }
    }
}

} // verus!
