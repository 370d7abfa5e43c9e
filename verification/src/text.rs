//! Text: comparing it, ordering it, and keeping NUL characters out of C strings.

use vstd::prelude::*;

verus! {

/// `String::push`: appends one character at the end.
pub assume_specification[ String::push ](text: &mut String, character: char)
    ensures
        final(text)@ == old(text)@.push(character),
;

/// Whether `text` can be handed over as a C string: it holds no NUL character.
pub open spec fn nul_free(text: Seq<char>) -> bool {
    !text.contains('\0')
}

/// The characters of `text`, in order.
pub fn chars_of(text: &str) -> (characters: Vec<char>)
    ensures
        characters@ == text@,
{
    let mut characters: Vec<char> = Vec::new();
    for c in it: text.chars()
        invariant
            it.seq() == text@,
            characters@ == text@.take(it.index()),
    {
        characters.push(c);
    }
    assert(text@.take(text@.len() as int) == text@);
    characters
}

/// Whether two texts are the same, character for character.
pub fn same_text(left: &str, right: &str) -> (same: bool)
    ensures
        same == (left@ == right@),
{
    let a = chars_of(left);
    let b = chars_of(right);
    if a.len() != b.len() {
        return false;
    }
    for i in 0..a.len()
        invariant
            a@.len() == b@.len(),
            a@ == left@,
            b@ == right@,
            a@.take(i as int) == b@.take(i as int),
    {
        if a[i] != b[i] {
            return false;
        }
    }
    assert(a@.take(a@.len() as int) == a@);
    assert(b@.take(a@.len() as int) == b@);
    true
}

/// Whether `text` holds a NUL character.
pub fn has_nul(text: &str) -> (found: bool)
    ensures
        found == !nul_free(text@),
{
    let characters = chars_of(text);
    for i in 0..characters.len()
        invariant
            characters@ == text@,
            forall|j: int| 0 <= j < i ==> characters@[j] != '\0',
    {
        if characters[i] == '\0' {
            return true;
        }
    }
    false
}

/// `text` with each NUL character replaced by a backslash and a `0`.
pub open spec fn nul_escaped(text: Seq<char>) -> Seq<char>
    decreases text.len(),
{
    if text.len() == 0 {
        text
    } else if text.last() == '\0' {
        nul_escaped(text.drop_last()) + seq!['\\', '0']
    } else {
        nul_escaped(text.drop_last()).push(text.last())
    }
}

/// Writes `text` with each NUL character as a backslash and a `0`.
pub fn escape_nul(text: &str) -> (escaped: String)
    ensures
        escaped@ == nul_escaped(text@),
        nul_free(escaped@),
{
    let characters = chars_of(text);
    let mut escaped = String::new();
    for i in 0..characters.len()
        invariant
            characters@ == text@,
            escaped@ == nul_escaped(text@.take(i as int)),
    {
        proof {
            assert(text@.take(i + 1).drop_last() == text@.take(i as int));
        }
        if characters[i] == '\0' {
            escaped.push('\\');
            escaped.push('0');
            assert(escaped@ == nul_escaped(text@.take(i as int)) + seq!['\\', '0']);
        } else {
            escaped.push(characters[i]);
        }
    }
    proof {
        assert(text@.take(text@.len() as int) == text@);
        nul_escaped_is_nul_free(text@);
    }
    escaped
}

/// What escaping yields holds no NUL character, whatever went in.
pub proof fn nul_escaped_is_nul_free(text: Seq<char>)
    ensures
        nul_free(nul_escaped(text)),
    decreases text.len(),
{
    if text.len() > 0 {
        nul_escaped_is_nul_free(text.drop_last());
        let rest = nul_escaped(text.drop_last());
        assert forall|i: int| 0 <= i < nul_escaped(text).len() implies nul_escaped(text)[i] != '\0' by {
            if i < rest.len() {
                assert(rest.contains(rest[i]));
            }
        }
    }
}

/// Escaping leaves a text without NUL characters as it is.
pub proof fn nul_escaped_keeps_nul_free_text(text: Seq<char>)
    requires
        nul_free(text),
    ensures
        nul_escaped(text) == text,
    decreases text.len(),
{
    if text.len() > 0 {
        assert(text.contains(text.last()));
        assert forall|c: char| text.drop_last().contains(c) implies text.contains(c) by {
            let i = choose|i: int| 0 <= i < text.drop_last().len() && text.drop_last()[i] == c;
            assert(text[i] == c);
        }
        nul_escaped_keeps_nul_free_text(text.drop_last());
        assert(text.drop_last().push(text.last()) == text);
    }
}

/// Two texts put together hold no NUL character if and only if neither does.
pub proof fn nul_free_concat(left: Seq<char>, right: Seq<char>)
    ensures
        nul_free(left + right) <==> nul_free(left) && nul_free(right),
{
    let whole = left + right;
    if !nul_free(left) {
        let i = choose|i: int| 0 <= i < left.len() && left[i] == '\0';
        assert(whole[i] == '\0');
    }
    if !nul_free(right) {
        let i = choose|i: int| 0 <= i < right.len() && right[i] == '\0';
        assert(whole[left.len() + i] == '\0');
    }
    if !nul_free(whole) {
        let i = choose|i: int| 0 <= i < whole.len() && whole[i] == '\0';
        if i < left.len() {
            assert(left[i] == '\0');
        } else {
            assert(right[i - left.len()] == '\0');
        }
    }
}

/// Whether `left` comes before `right` when texts are ordered character by character.
pub open spec fn text_before(left: Seq<char>, right: Seq<char>) -> bool
    decreases left.len(),
{
    if right.len() == 0 {
        false
    } else if left.len() == 0 {
        true
    } else if left[0] != right[0] {
        left[0] < right[0]
    } else {
        text_before(left.drop_first(), right.drop_first())
    }
}

/// Whether `left` comes before `right` in the order of texts.
pub fn comes_before(left: &str, right: &str) -> (before: bool)
    ensures
        before == text_before(left@, right@),
{
    let a = chars_of(left);
    let b = chars_of(right);
    let mut i: usize = 0;
    assert(a@.skip(0) == a@);
    assert(b@.skip(0) == b@);
    while i < a.len() && i < b.len()
        invariant
            i <= a@.len(),
            i <= b@.len(),
            text_before(left@, right@) == text_before(a@.skip(i as int), b@.skip(i as int)),
        decreases a@.len() - i,
    {
        if a[i] != b[i] {
            return a[i] < b[i];
        }
        assert(a@.skip(i as int).drop_first() == a@.skip(i + 1));
        assert(b@.skip(i as int).drop_first() == b@.skip(i + 1));
        i += 1;
    }
    i < b.len()
}

/// Text order is irreflexive.
pub proof fn text_before_irreflexive(text: Seq<char>)
    ensures
        !text_before(text, text),
    decreases text.len(),
{
    if text.len() > 0 {
        text_before_irreflexive(text.drop_first());
    }
}

/// Text order is transitive.
pub proof fn text_before_transitive(a: Seq<char>, b: Seq<char>, c: Seq<char>)
    requires
        text_before(a, b),
        text_before(b, c),
    ensures
        text_before(a, c),
    decreases a.len(),
{
    if a.len() > 0 && a[0] == b[0] && b[0] == c[0] {
        text_before_transitive(a.drop_first(), b.drop_first(), c.drop_first());
    }
}

/// Of two different texts, one comes before the other.
pub proof fn text_before_total(a: Seq<char>, b: Seq<char>)
    requires
        a != b,
    ensures
        text_before(a, b) || text_before(b, a),
    decreases a.len(),
{
    if a.len() > 0 && b.len() > 0 && a[0] == b[0] {
        assert(a.drop_first() != b.drop_first()) by {
            if a.drop_first() == b.drop_first() {
                assert(a == seq![a[0]] + a.drop_first());
                assert(b == seq![b[0]] + b.drop_first());
            }
        }
        text_before_total(a.drop_first(), b.drop_first());
    } else if a.len() == 0 && b.len() == 0 {
        assert(a == b);
    }
}

/// Escaping goes character by character: a NUL becomes a backslash and a `0`, each other character
/// stays, and what comes before or after makes no difference.
pub proof fn nul_is_escaped_by_character(left: Seq<char>, right: Seq<char>, character: char)
    ensures
        nul_escaped(left + right) == nul_escaped(left) + nul_escaped(right),
        character == '\0' ==> nul_escaped(seq![character]) == seq!['\\', '0'],
        character != '\0' ==> nul_escaped(seq![character]) == seq![character],
    decreases right.len(),
{
    let single = seq![character];
    assert(single.drop_last() == Seq::<char>::empty());
    assert(nul_escaped(Seq::<char>::empty()) == Seq::<char>::empty());
    assert(Seq::<char>::empty() + seq!['\\', '0'] == seq!['\\', '0']);
    assert(Seq::<char>::empty().push(character) == single);
    if right.len() == 0 {
        assert(left + right == left);
        assert(nul_escaped(left) + nul_escaped(right) == nul_escaped(left));
    } else {
        let whole = left + right;
        assert(whole.drop_last() == left + right.drop_last());
        nul_is_escaped_by_character(left, right.drop_last(), character);
        assert(whole.last() == right.last());
        assert(nul_escaped(left) + (nul_escaped(right.drop_last()) + seq!['\\', '0']) == (nul_escaped(
            left,
        ) + nul_escaped(right.drop_last())) + seq!['\\', '0']);
        assert(nul_escaped(left) + nul_escaped(right.drop_last()).push(right.last()) == (
        nul_escaped(left) + nul_escaped(right.drop_last())).push(right.last()));
    }
}

/// Where two texts differ first, the lower character comes first.
pub proof fn first_difference_orders(left: Seq<char>, right: Seq<char>, place: int)
    requires
        0 <= place < left.len(),
        place < right.len(),
        left.take(place) == right.take(place),
        left[place] != right[place],
    ensures
        text_before(left, right) <==> left[place] < right[place],
    decreases place,
{
    if place > 0 {
        assert(left[0] == left.take(place)[0] && right[0] == right.take(place)[0]);
        let a = left.drop_first();
        let b = right.drop_first();
        assert forall|i: int| 0 <= i < place - 1 implies a[i] == b[i] by {
            assert(left[i + 1] == left.take(place)[i + 1]);
            assert(right[i + 1] == right.take(place)[i + 1]);
        }
        assert(a.take(place - 1) == b.take(place - 1));
        first_difference_orders(a, b, place - 1);
    }
}

/// A text comes before its continuations, and no continuation comes before it.
pub proof fn shorter_text_comes_first(text: Seq<char>, rest: Seq<char>)
    ensures
        text_before(text, text + rest) <==> rest.len() > 0,
        !text_before(text + rest, text),
    decreases text.len(),
{
    if text.len() > 0 {
        assert((text + rest).drop_first() == text.drop_first() + rest);
        shorter_text_comes_first(text.drop_first(), rest);
    }
}

} // verus!
