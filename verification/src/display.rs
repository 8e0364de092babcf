//! What buttons and knobs show: knob titles and the images of each state.
use vstd::prelude::*;

use crate::icons::{
    blank_button_url, blank_knob_url, create_blank_button, create_blank_knob,
    create_knob_display, create_unlocked_button_with_icon, knob_url, unlocked_icon,
};
use crate::text::{chars_of, concat, slice_of, string_of};

verus! {

/// The most characters a knob title line holds.
pub const MAX_LABEL_CHARS: usize = 9;

/// At most the first `n` elements of `s`.
pub open spec fn take_at_most(s: Seq<char>, n: int) -> Seq<char> {
    if s.len() <= n {
        s
    } else {
        s.take(n)
    }
}

/// The first space from position `i` on that can split a title: not at
/// either end, and with at most `MAX_LABEL_CHARS` characters before it.
pub open spec fn label_break_from(s: Seq<char>, i: int) -> Option<int>
    decreases s.len() - i,
{
    if i < 0 || i >= s.len() {
        None
    } else if s[i] == ' ' && i > 0 && i < s.len() - 1 && i <= 9 {
        Some(i)
    } else {
        label_break_from(s, i + 1)
    }
}

/// A knob title: kept whole up to `MAX_LABEL_CHARS` characters, else split
/// into two lines at the first suitable space (or after the ninth
/// character), the second line cut to `MAX_LABEL_CHARS` characters.
pub open spec fn knob_label(s: Seq<char>) -> Seq<char> {
    if s.len() <= 9 {
        s
    } else {
        match label_break_from(s, 0) {
            Some(i) => s.take(i) + "\n"@ + take_at_most(s.skip(i + 1), 9),
            None => s.take(9) + "\n"@ + take_at_most(s.skip(9), 9),
        }
    }
}

proof fn lemma_label_break(s: Seq<char>, i: int)
    requires
        0 <= i <= s.len(),
    ensures
        label_break_from(s, i) matches Some(k) ==> i <= k && 0 < k <= 9 && k < s.len() - 1,
    decreases s.len() - i,
{
    if i < s.len() && !(s[i] == ' ' && i > 0 && i < s.len() - 1 && i <= 9) {
        lemma_label_break(s, i + 1);
    }
}

/// The title a knob shows for `name`: a title longer than
/// `MAX_LABEL_CHARS` characters becomes two lines of at most
/// `MAX_LABEL_CHARS` characters each.
pub fn format_knob_label(name: &str) -> (r: String)
    ensures
        r@ == knob_label(name@),
        name@.len() > 9 ==> exists|a: Seq<char>, b: Seq<char>|
            r@ == a + "\n"@ + b && 0 < a.len() <= 9 && b.len() <= 9,
{
    let chars = chars_of(name);
    let n = chars.len();
    if n <= MAX_LABEL_CHARS {
        return name.to_owned();
    }
    proof {
        lemma_label_break(chars@, 0);
    }
    let newline = chars_of("\n");
    let mut i: usize = 0;
    while i < n
        invariant
            i <= n == chars.len(),
            n > 9,
            chars@ == name@,
            newline@ == "\n"@,
            label_break_from(chars@, 0) == label_break_from(chars@, i as int),
        decreases n - i,
    {
        if chars[i] == ' ' && i > 0 && i < n - 1 && i <= MAX_LABEL_CHARS {
            let first = slice_of(&chars, 0, i);
            let end = if n - (i + 1) <= MAX_LABEL_CHARS {
                n
            } else {
                i + 1 + MAX_LABEL_CHARS
            };
            let second = slice_of(&chars, i + 1, end);
            assert(first@ =~= chars@.take(i as int));
            assert(second@ =~= take_at_most(chars@.skip(i + 1), 9));
            let r = string_of(&concat(&concat(&first, &newline), &second));
            assert(r@ == first@ + "\n"@ + second@);
            return r;
        }
        i += 1;
    }
    let first = slice_of(&chars, 0, MAX_LABEL_CHARS);
    let end = if n - MAX_LABEL_CHARS <= MAX_LABEL_CHARS {
        n
    } else {
        2 * MAX_LABEL_CHARS
    };
    let second = slice_of(&chars, MAX_LABEL_CHARS, end);
    assert(first@ =~= chars@.take(9));
    assert(second@ =~= take_at_most(chars@.skip(9), 9));
    let r = string_of(&concat(&concat(&first, &newline), &second));
    assert(r@ == first@ + "\n"@ + second@);
    r
}

/// The image of a blank button.
pub fn blank_button_image() -> (r: String)
    ensures
        r@ == blank_button_url(),
{
    create_blank_button()
}

/// The image of a blank knob.
pub fn blank_knob_image() -> (r: String)
    ensures
        r@ == blank_knob_url(),
{
    create_blank_knob()
}

/// The image of a knob showing `volume`, or muted.
pub fn knob_image(name: &str, volume: u32, muted: bool) -> (r: String)
    ensures
        r@ == knob_url(volume, muted),
{
    create_knob_display(name, volume, muted)
}

/// The image of an unlocked button in one of its two flashing shades.
pub fn unlocked_button_image(icon_b64: &str, is_light: bool) -> (r: String)
    ensures
        r@ == unlocked_icon(icon_b64@, is_light),
{
    create_unlocked_button_with_icon(icon_b64, is_light)
}

} // verus!

verus! {

proof fn lemma_break_at_first(s: Seq<char>, i: int, k: int)
    requires
        0 <= i <= k < s.len() - 1,
        0 < k <= 9,
        s[k] == ' ',
        forall|j: int| 0 < j < k ==> s[j] != ' ',
    ensures
        label_break_from(s, i) == Some(k),
    decreases k - i,
{
    if i < k {
        lemma_break_at_first(s, i + 1, k);
    }
}

proof fn lemma_no_break(s: Seq<char>, i: int)
    requires
        0 <= i <= s.len(),
        forall|j: int| 0 < j < s.len() - 1 && j <= 9 ==> s[j] != ' ',
    ensures
        label_break_from(s, i) is None,
    decreases s.len() - i,
{
    if i < s.len() {
        lemma_no_break(s, i + 1);
    }
}

/// A title longer than nine characters is split at its first space that
/// is neither its first nor its last character and has at most nine
/// characters before it: the first line is what comes before that space,
/// the second at most nine characters of what follows it.
pub proof fn lemma_label_splits_at_first_space(s: Seq<char>, k: int)
    requires
        s.len() > 9,
        0 < k < s.len() - 1,
        k <= 9,
        s[k] == ' ',
        forall|j: int| 0 < j < k ==> s[j] != ' ',
    ensures
        knob_label(s) == s.take(k) + "\n"@ + (if s.len() - (k + 1) <= 9 {
            s.skip(k + 1)
        } else {
            s.skip(k + 1).take(9)
        }),
{
    lemma_break_at_first(s, 0, k);
}

/// A title longer than nine characters with no such space is split after
/// its ninth character, the second line holding at most nine characters.
pub proof fn lemma_label_splits_after_nine(s: Seq<char>)
    requires
        s.len() > 9,
        forall|j: int| 0 < j < s.len() - 1 && j <= 9 ==> s[j] != ' ',
    ensures
        knob_label(s) == s.take(9) + "\n"@ + (if s.len() - 9 <= 9 {
            s.skip(9)
        } else {
            s.skip(9).take(9)
        }),
{
    lemma_no_break(s, 0);
}

/// A title of at most nine characters is shown as it is.
pub proof fn lemma_short_label_kept(s: Seq<char>)
    requires
        s.len() <= 9,
    ensures
        knob_label(s) == s,
{
}

} // verus!
