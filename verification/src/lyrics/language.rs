//! Well-formedness of BCP 47 language tags: language, extended language,
//! script, region, variant, extension, private-use and grandfathered forms.
//! Only syntax is checked, not registration.

use crate::text::{
    ascii_lower_text, char_is_alnum, char_is_alpha, char_is_digit, chars_equal, chars_of, is_alnum,
    is_alpha, is_digit, lower_chars,
};
use vstd::prelude::*;

verus! {

/// The `-`-separated subtags of `s` (an empty text has one empty subtag).
pub open spec fn split_parts(s: Seq<char>) -> Seq<Seq<char>>
    decreases s.len(),
{
    if s.len() == 0 {
        seq![Seq::<char>::empty()]
    } else {
        let parts = split_parts(s.drop_last());
        if s.last() == '-' {
            parts.push(Seq::<char>::empty())
        } else {
            parts.update(parts.len() - 1, parts.last().push(s.last()))
        }
    }
}

pub proof fn lemma_split_parts_nonempty(s: Seq<char>)
    ensures
        split_parts(s).len() >= 1,
    decreases s.len(),
{
    if s.len() > 0 {
        lemma_split_parts_nonempty(s.drop_last());
    }
}

pub open spec fn all_alpha(p: Seq<char>) -> bool {
    forall|i: int| 0 <= i < p.len() ==> #[trigger] is_alpha(p[i])
}

pub open spec fn all_alnum(p: Seq<char>) -> bool {
    forall|i: int| 0 <= i < p.len() ==> #[trigger] is_alnum(p[i])
}

pub open spec fn all_digits(p: Seq<char>) -> bool {
    forall|i: int| 0 <= i < p.len() ==> #[trigger] is_digit(p[i])
}

/// The primary language subtag: 2 to 8 letters.
pub open spec fn is_language_subtag(p: Seq<char>) -> bool {
    2 <= p.len() <= 8 && all_alpha(p)
}

/// An extended language subtag: 3 letters.
pub open spec fn is_extlang(p: Seq<char>) -> bool {
    p.len() == 3 && all_alpha(p)
}

/// A script subtag: 4 letters.
pub open spec fn is_script(p: Seq<char>) -> bool {
    p.len() == 4 && all_alpha(p)
}

/// A region subtag: 2 letters or 3 digits.
pub open spec fn is_region(p: Seq<char>) -> bool {
    (p.len() == 2 && all_alpha(p)) || (p.len() == 3 && all_digits(p))
}

/// A variant subtag: 5 to 8 alphanumerics, or 4 starting with a digit.
pub open spec fn is_variant(p: Seq<char>) -> bool {
    (5 <= p.len() <= 8 && all_alnum(p)) || (p.len() == 4 && is_digit(p[0]) && all_alnum(p))
}

/// The private-use marker `x` (either case).
pub open spec fn is_x(p: Seq<char>) -> bool {
    p.len() == 1 && (p[0] == 'x' || p[0] == 'X')
}

/// An extension singleton: one alphanumeric other than `x`.
pub open spec fn is_singleton(p: Seq<char>) -> bool {
    p.len() == 1 && is_alnum(p[0]) && !is_x(p)
}

/// A subtag of `min` to 8 alphanumerics.
pub open spec fn is_subtag_of(p: Seq<char>, min: nat) -> bool {
    min <= p.len() <= 8 && all_alnum(p)
}

/// Index after up to three extended language subtags from `i`.
pub open spec fn after_extlangs(parts: Seq<Seq<char>>, i: int, count: int) -> int
    decreases 3 - count,
{
    if count < 3 && 0 <= i < parts.len() && is_extlang(parts[i]) {
        after_extlangs(parts, i + 1, count + 1)
    } else {
        i
    }
}

proof fn lemma_after_extlangs_bounds(parts: Seq<Seq<char>>, i: int, count: int)
    requires
        1 <= i <= parts.len(),
    ensures
        i <= after_extlangs(parts, i, count) <= parts.len(),
    decreases 3 - count,
{
    if count < 3 && 0 <= i < parts.len() && is_extlang(parts[i]) {
        lemma_after_extlangs_bounds(parts, i + 1, count + 1);
    }
}

/// Index after an optional script subtag at `i`.
pub open spec fn after_script(parts: Seq<Seq<char>>, i: int) -> int {
    if 0 <= i < parts.len() && is_script(parts[i]) {
        i + 1
    } else {
        i
    }
}

/// Index after an optional region subtag at `i`.
pub open spec fn after_region(parts: Seq<Seq<char>>, i: int) -> int {
    if 0 <= i < parts.len() && is_region(parts[i]) {
        i + 1
    } else {
        i
    }
}

/// Index after the variants from `i`, or `None` when one repeats
/// (ignoring case); `seen` holds the lowercased variants already read.
pub open spec fn after_variants(parts: Seq<Seq<char>>, i: int, seen: Seq<Seq<char>>) -> Option<
    int,
>
    decreases parts.len() - i,
{
    if 0 <= i < parts.len() && is_variant(parts[i]) {
        let lower = ascii_lower_text(parts[i]);
        if seen.contains(lower) {
            None
        } else {
            after_variants(parts, i + 1, seen.push(lower))
        }
    } else {
        Some(i)
    }
}

/// Index after the subtags of at least `min` characters from `j`.
pub open spec fn after_subtags(parts: Seq<Seq<char>>, j: int, min: nat) -> int
    decreases parts.len() - j,
{
    if 0 <= j < parts.len() && is_subtag_of(parts[j], min) {
        after_subtags(parts, j + 1, min)
    } else {
        j
    }
}

pub proof fn lemma_after_subtags_grows(parts: Seq<Seq<char>>, j: int, min: nat)
    ensures
        after_subtags(parts, j, min) >= j,
        0 <= j <= parts.len() ==> after_subtags(parts, j, min) <= parts.len(),
    decreases parts.len() - j,
{
    if 0 <= j < parts.len() && is_subtag_of(parts[j], min) {
        lemma_after_subtags_grows(parts, j + 1, min);
    }
}

/// Index after the extensions from `i`, or `None` when a singleton repeats
/// or has no subtags.
pub open spec fn after_extensions(parts: Seq<Seq<char>>, i: int, seen: Seq<Seq<char>>) -> Option<
    int,
>
    decreases parts.len() - i,
{
    if 0 <= i < parts.len() && is_singleton(parts[i]) {
        let lower = ascii_lower_text(parts[i]);
        let j = after_subtags(parts, i + 1, 2);
        proof {
            lemma_after_subtags_grows(parts, i + 1, 2);
        }
        if seen.contains(lower) || j == i + 1 {
            None
        } else {
            after_extensions(parts, j, seen.push(lower))
        }
    } else {
        Some(i)
    }
}

/// Index after an optional private-use section at `i`, or `None` when it
/// has no subtags.
pub open spec fn after_private_use(parts: Seq<Seq<char>>, i: int) -> Option<int> {
    if 0 <= i < parts.len() && is_x(parts[i]) {
        let j = after_subtags(parts, i + 1, 1);
        if j == i + 1 {
            None
        } else {
            Some(j)
        }
    } else {
        Some(i)
    }
}

/// The registered grandfathered tags, in lowercase.
pub open spec fn is_grandfathered(lower: Seq<char>) -> bool {
    ||| lower == "art-lojban"@
    ||| lower == "cel-gaulish"@
    ||| lower == "en-gb-oed"@
    ||| lower == "i-ami"@
    ||| lower == "i-bnn"@
    ||| lower == "i-default"@
    ||| lower == "i-enochian"@
    ||| lower == "i-hak"@
    ||| lower == "i-klingon"@
    ||| lower == "i-lux"@
    ||| lower == "i-mingo"@
    ||| lower == "i-navajo"@
    ||| lower == "i-pwn"@
    ||| lower == "i-tao"@
    ||| lower == "i-tay"@
    ||| lower == "i-tsu"@
    ||| lower == "no-bok"@
    ||| lower == "no-nyn"@
    ||| lower == "sgn-be-fr"@
    ||| lower == "sgn-be-nl"@
    ||| lower == "sgn-ch-de"@
    ||| lower == "zh-guoyu"@
    ||| lower == "zh-hakka"@
    ||| lower == "zh-min"@
    ||| lower == "zh-min-nan"@
    ||| lower == "zh-xiang"@
}

/// The langtag production: language, extended languages, script, region,
/// variants, extensions and private use, consuming every subtag.
pub open spec fn is_langtag(parts: Seq<Seq<char>>) -> bool {
    let i1 = if parts[0].len() <= 3 {
        after_extlangs(parts, 1, 0)
    } else {
        1
    };
    let i3 = after_region(parts, after_script(parts, i1));
    &&& is_language_subtag(parts[0])
    &&& match after_variants(parts, i3, Seq::empty()) {
        None => false,
        Some(i4) => match after_extensions(parts, i4, Seq::empty()) {
            None => false,
            Some(i5) => after_private_use(parts, i5) == Some(parts.len() as int),
        },
    }
}

/// A well-formed BCP 47 language tag of at most 255 characters.
pub open spec fn is_language_tag_spec(s: Seq<char>) -> bool {
    let parts = split_parts(s);
    if s.len() > 255 {
        false
    } else if is_grandfathered(ascii_lower_text(s)) {
        true
    } else if exists|k: int| 0 <= k < parts.len() && #[trigger] parts[k].len() == 0 {
        false
    } else if is_x(parts[0]) {
        parts.len() > 1 && forall|k: int| 1 <= k < parts.len() ==> is_subtag_of(#[trigger] parts[k], 1)
    } else {
        is_langtag(parts)
    }
}

/// Whether `value` is a well-formed BCP 47 language tag.
#[verifier::loop_isolation(false)]
pub fn is_language_tag(value: &str) -> (valid: bool)
    ensures
        valid == is_language_tag_spec(value@),
{
    let chars = chars_of(value);
    if chars.len() > 255 {
        return false;
    }
    let lower = lower_chars(chars.as_slice());
    if grandfathered(&lower) {
        return true;
    }
    let parts = split_dash(&chars);
    let ghost sp = split_parts(value@);
    proof {
        lemma_split_parts_nonempty(value@);
    }
    let mut k: usize = 0;
    while k < parts.len()
        invariant
            k <= parts@.len(),
            parts@.len() == sp.len(),
            forall|m: int| 0 <= m < parts@.len() ==> #[trigger] parts@[m]@ == sp[m],
            forall|m: int| 0 <= m < k ==> sp[m].len() != 0,
        decreases parts@.len() - k,
    {
        if parts[k].len() == 0 {
            assert(sp[k as int].len() == 0);
            assert(exists|m: int| 0 <= m < sp.len() && #[trigger] sp[m].len() == 0);
            return false;
        }
        k = k + 1;
    }
    assert(!exists|m: int| 0 <= m < sp.len() && #[trigger] sp[m].len() == 0);
    if part_is_x(&parts[0]) {
        if parts.len() <= 1 {
            return false;
        }
        let mut m: usize = 1;
        while m < parts.len()
            invariant
                1 <= m <= parts@.len(),
                parts@.len() == sp.len(),
                forall|n: int| 0 <= n < parts@.len() ==> #[trigger] parts@[n]@ == sp[n],
                forall|n: int| 1 <= n < m ==> is_subtag_of(#[trigger] sp[n], 1),
            decreases parts@.len() - m,
        {
            if !part_is_subtag_of(&parts[m], 1) {
                assert(!is_subtag_of(sp[m as int], 1));
                return false;
            }
            m = m + 1;
        }
        return true;
    }
    if !(2 <= parts[0].len() && parts[0].len() <= 8 && part_all_alpha(&parts[0])) {
        return false;
    }
    let mut index: usize = 1;
    proof {
        lemma_after_extlangs_bounds(sp, 1, 0);
    }
    if parts[0].len() <= 3 {
        let mut extlangs: usize = 0;
        while extlangs < 3 && index < parts.len() && parts[index].len() == 3 && part_all_alpha(
            &parts[index],
        )
            invariant
                parts@.len() == sp.len(),
                forall|n: int| 0 <= n < parts@.len() ==> #[trigger] parts@[n]@ == sp[n],
                extlangs <= 3,
                index == 1 + extlangs,
                after_extlangs(sp, 1, 0) == after_extlangs(sp, index as int, extlangs as int),
            decreases 3 - extlangs,
        {
            index = index + 1;
            extlangs = extlangs + 1;
        }
    }
    assert(index == if sp[0].len() <= 3 {
        after_extlangs(sp, 1, 0)
    } else {
        1
    });
    if index < parts.len() && parts[index].len() == 4 && part_all_alpha(&parts[index]) {
        index = index + 1;
    }
    if index < parts.len() && ((parts[index].len() == 2 && part_all_alpha(&parts[index])) || (
    parts[index].len() == 3 && part_all_digits(&parts[index]))) {
        index = index + 1;
    }
    let ghost i3 = index as int;
    assert(i3 == after_region(sp, after_script(sp, if sp[0].len() <= 3 {
        after_extlangs(sp, 1, 0)
    } else {
        1
    })));
    let mut seen_variants: Vec<Vec<char>> = Vec::new();
    assert(seen_variants@.map_values(|v: Vec<char>| v@) =~= Seq::<Seq<char>>::empty());
    while index < parts.len() && part_is_variant(&parts[index])
        invariant
            parts@.len() == sp.len(),
            forall|n: int| 0 <= n < parts@.len() ==> #[trigger] parts@[n]@ == sp[n],
            i3 <= index <= parts@.len(),
            after_variants(sp, i3, Seq::empty()) == after_variants(
                sp,
                index as int,
                seen_variants@.map_values(|v: Vec<char>| v@),
            ),
        decreases parts@.len() - index,
    {
        let lowered = lower_chars(parts[index].as_slice());
        if contains_part(&seen_variants, &lowered) {
            return false;
        }
        let ghost before = seen_variants@.map_values(|v: Vec<char>| v@);
        seen_variants.push(lowered);
        assert(seen_variants@.map_values(|v: Vec<char>| v@) =~= before.push(
            ascii_lower_text(sp[index as int]),
        ));
        index = index + 1;
    }
    let ghost i4 = index as int;
    assert(after_variants(sp, i3, Seq::empty()) == Some(i4));
    let mut seen_singletons: Vec<Vec<char>> = Vec::new();
    assert(seen_singletons@.map_values(|v: Vec<char>| v@) =~= Seq::<Seq<char>>::empty());
    while index < parts.len() && part_is_singleton(&parts[index])
        invariant
            parts@.len() == sp.len(),
            forall|n: int| 0 <= n < parts@.len() ==> #[trigger] parts@[n]@ == sp[n],
            i4 <= index <= parts@.len(),
            after_extensions(sp, i4, Seq::empty()) == after_extensions(
                sp,
                index as int,
                seen_singletons@.map_values(|v: Vec<char>| v@),
            ),
        decreases parts@.len() - index,
    {
        let lowered = lower_chars(parts[index].as_slice());
        if contains_part(&seen_singletons, &lowered) {
            return false;
        }
        let ghost before = seen_singletons@.map_values(|v: Vec<char>| v@);
        let ghost at = index as int;
        seen_singletons.push(lowered);
        assert(seen_singletons@.map_values(|v: Vec<char>| v@) =~= before.push(
            ascii_lower_text(sp[at]),
        ));
        index = index + 1;
        let start = index;
        while index < parts.len() && part_is_subtag_of(&parts[index], 2)
            invariant
                parts@.len() == sp.len(),
                forall|n: int| 0 <= n < parts@.len() ==> #[trigger] parts@[n]@ == sp[n],
                start <= index <= parts@.len(),
                after_subtags(sp, start as int, 2) == after_subtags(sp, index as int, 2),
            decreases parts@.len() - index,
        {
            index = index + 1;
        }
        if index == start {
            return false;
        }
    }
    let ghost i5 = index as int;
    assert(after_extensions(sp, i4, Seq::empty()) == Some(i5));
    if index < parts.len() && part_is_x(&parts[index]) {
        index = index + 1;
        let start = index;
        while index < parts.len() && part_is_subtag_of(&parts[index], 1)
            invariant
                parts@.len() == sp.len(),
                forall|n: int| 0 <= n < parts@.len() ==> #[trigger] parts@[n]@ == sp[n],
                start <= index <= parts@.len(),
                after_subtags(sp, start as int, 1) == after_subtags(sp, index as int, 1),
            decreases parts@.len() - index,
        {
            index = index + 1;
        }
        if index == start {
            return false;
        }
    }
    index == parts.len()
}

/// Whether the lowercased text is a grandfathered tag.
fn grandfathered(lower: &Vec<char>) -> (found: bool)
    ensures
        found == is_grandfathered(lower@),
{
    let s = lower.as_slice();
    is_chars(s, "art-lojban") || is_chars(s, "cel-gaulish") || is_chars(s, "en-gb-oed")
        || is_chars(s, "i-ami") || is_chars(s, "i-bnn") || is_chars(s, "i-default") || is_chars(
        s,
        "i-enochian",
    ) || is_chars(s, "i-hak") || is_chars(s, "i-klingon") || is_chars(s, "i-lux") || is_chars(
        s,
        "i-mingo",
    ) || is_chars(s, "i-navajo") || is_chars(s, "i-pwn") || is_chars(s, "i-tao") || is_chars(
        s,
        "i-tay",
    ) || is_chars(s, "i-tsu") || is_chars(s, "no-bok") || is_chars(s, "no-nyn") || is_chars(
        s,
        "sgn-be-fr",
    ) || is_chars(s, "sgn-be-nl") || is_chars(s, "sgn-ch-de") || is_chars(s, "zh-guoyu")
        || is_chars(s, "zh-hakka") || is_chars(s, "zh-min") || is_chars(s, "zh-min-nan")
        || is_chars(s, "zh-xiang")
}

/// Whether a character sequence spells a literal.
pub fn is_chars(s: &[char], literal: &str) -> (equal: bool)
    ensures
        equal == (s@ == literal@),
{
    let l = chars_of(literal);
    chars_equal(s, l.as_slice())
}

/// The `-`-separated subtags of `chars`.
fn split_dash(chars: &Vec<char>) -> (parts: Vec<Vec<char>>)
    ensures
        parts@.len() == split_parts(chars@).len(),
        forall|m: int| 0 <= m < parts@.len() ==> #[trigger] parts@[m]@ == split_parts(chars@)[m],
{
    let mut parts: Vec<Vec<char>> = Vec::new();
    let mut current: Vec<char> = Vec::new();
    let mut i: usize = 0;
    while i < chars.len()
        invariant
            i <= chars@.len(),
            parts@.len() + 1 == split_parts(chars@.take(i as int)).len(),
            forall|m: int|
                0 <= m < parts@.len() ==> #[trigger] parts@[m]@ == split_parts(
                    chars@.take(i as int),
                )[m],
            current@ == split_parts(chars@.take(i as int)).last(),
        decreases chars@.len() - i,
    {
        let ghost prefix = chars@.take(i as int);
        assert(chars@.take(i + 1).drop_last() == prefix);
        assert(chars@.take(i + 1).last() == chars@[i as int]);
        proof {
            lemma_split_parts_nonempty(prefix);
        }
        if chars[i] == '-' {
            parts.push(current);
            current = Vec::new();
        } else {
            current.push(chars[i]);
        }
        i = i + 1;
    }
    assert(chars@.take(chars@.len() as int) == chars@);
    parts.push(current);
    parts
}

fn part_all_alpha(p: &Vec<char>) -> (r: bool)
    ensures
        r == all_alpha(p@),
{
    let mut i: usize = 0;
    while i < p.len()
        invariant
            i <= p@.len(),
            forall|j: int| 0 <= j < i ==> #[trigger] is_alpha(p@[j]),
        decreases p@.len() - i,
    {
        if !char_is_alpha(p[i]) {
            return false;
        }
        i = i + 1;
    }
    true
}

fn part_all_alnum(p: &Vec<char>) -> (r: bool)
    ensures
        r == all_alnum(p@),
{
    let mut i: usize = 0;
    while i < p.len()
        invariant
            i <= p@.len(),
            forall|j: int| 0 <= j < i ==> #[trigger] is_alnum(p@[j]),
        decreases p@.len() - i,
    {
        if !char_is_alnum(p[i]) {
            return false;
        }
        i = i + 1;
    }
    true
}

fn part_all_digits(p: &Vec<char>) -> (r: bool)
    ensures
        r == all_digits(p@),
{
    let mut i: usize = 0;
    while i < p.len()
        invariant
            i <= p@.len(),
            forall|j: int| 0 <= j < i ==> #[trigger] is_digit(p@[j]),
        decreases p@.len() - i,
    {
        if !char_is_digit(p[i]) {
            return false;
        }
        i = i + 1;
    }
    true
}

fn part_is_x(p: &Vec<char>) -> (r: bool)
    ensures
        r == is_x(p@),
{
    p.len() == 1 && (p[0] == 'x' || p[0] == 'X')
}

fn part_is_variant(p: &Vec<char>) -> (r: bool)
    ensures
        r == is_variant(p@),
{
    (5 <= p.len() && p.len() <= 8 && part_all_alnum(p)) || (p.len() == 4 && char_is_digit(p[0])
        && part_all_alnum(p))
}

fn part_is_singleton(p: &Vec<char>) -> (r: bool)
    ensures
        r == is_singleton(p@),
{
    p.len() == 1 && char_is_alnum(p[0]) && !part_is_x(p)
}

fn part_is_subtag_of(p: &Vec<char>, min: usize) -> (r: bool)
    ensures
        r == is_subtag_of(p@, min as nat),
{
    min <= p.len() && p.len() <= 8 && part_all_alnum(p)
}

/// Whether `part` occurs in `seen`.
fn contains_part(seen: &Vec<Vec<char>>, part: &Vec<char>) -> (found: bool)
    ensures
        found == seen@.map_values(|v: Vec<char>| v@).contains(part@),
{
    let ghost views = seen@.map_values(|v: Vec<char>| v@);
    let mut i: usize = 0;
    while i < seen.len()
        invariant
            i <= seen@.len(),
            views == seen@.map_values(|v: Vec<char>| v@),
            forall|j: int| 0 <= j < i ==> views[j] != part@,
        decreases seen@.len() - i,
    {
        if chars_equal(seen[i].as_slice(), part.as_slice()) {
            assert(views[i as int] == part@);
            return true;
        }
        i = i + 1;
    }
    false
}

} // verus!
