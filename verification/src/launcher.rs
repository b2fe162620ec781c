use vstd::prelude::*;

use crate::text::push_char;

verus! {

/// Whether `c` is a control character (Unicode general category Cc): the code
/// points 0 to 0x1F and 0x7F to 0x9F, as `char::is_control` decides.
pub open spec fn spec_is_control(c: char) -> bool {
    (c as u32) <= 0x1f || (0x7f <= (c as u32) && (c as u32) <= 0x9f)
}

/// Whether `c` is a control character.
pub fn is_control(c: char) -> (b: bool)
    ensures
        b == spec_is_control(c),
{
    let v = c as u32;
    v <= 0x1f || (0x7f <= v && v <= 0x9f)
}

/// What the launcher does with a key press.
pub enum KeyOutcome {
    /// Escape: toggle the launcher and stop the key here.
    Toggle,
    /// A printable character: focus the search box, set its text to this one
    /// (the character appended) and put the cursor at the end; the key goes on.
    InsertText(String),
    /// Anything else: the key goes on.
    Ignore,
}

/// A `KeyOutcome` with its text as a character sequence.
pub enum KeyOutcomeModel {
    Toggle,
    InsertText(Seq<char>),
    Ignore,
}

impl View for KeyOutcome {
    type V = KeyOutcomeModel;

    open spec fn view(&self) -> KeyOutcomeModel {
        match self {
            KeyOutcome::Toggle => KeyOutcomeModel::Toggle,
            KeyOutcome::InsertText(t) => KeyOutcomeModel::InsertText(t@),
            KeyOutcome::Ignore => KeyOutcomeModel::Ignore,
        }
    }
}

/// The launcher's reaction to a key: Escape toggles it; a key that stands for a
/// character other than a control character is typed into the search box.
pub open spec fn key_outcome(is_escape: bool, key_char: Option<char>, text: Seq<char>) -> KeyOutcomeModel {
    if is_escape {
        KeyOutcomeModel::Toggle
    } else {
        match key_char {
            Some(c) => if spec_is_control(c) {
                KeyOutcomeModel::Ignore
            } else {
                KeyOutcomeModel::InsertText(text.push(c))
            },
            None => KeyOutcomeModel::Ignore,
        }
    }
}

/// Decides what a key press on the launcher window does, given whether it is
/// Escape, the character it stands for (if any) and the search box's text.
pub fn launcher_key_pressed(is_escape: bool, key_char: Option<char>, text: &str) -> (r: KeyOutcome)
    ensures
        r@ == key_outcome(is_escape, key_char, text@),
{
    if is_escape {
        return KeyOutcome::Toggle;
    }
    match key_char {
        Some(c) => {
            if is_control(c) {
                KeyOutcome::Ignore
            } else {
                let mut new_text = String::from_str(text);
                push_char(&mut new_text, c);
                KeyOutcome::InsertText(new_text)
            }
        },
        None => KeyOutcome::Ignore,
    }
}

/// Whether the key press stops here instead of going on to other handlers.
pub fn stops_propagation(outcome: &KeyOutcome) -> (b: bool)
    ensures
        b == (outcome@ is Toggle),
{
    match outcome {
        KeyOutcome::Toggle => true,
        _ => false,
    }
}

/// How the launcher window changes when toggled.
#[derive(PartialEq, Eq, Structural)]
pub enum ToggleAction {
    /// It was visible: drop the visible style and hide the window shortly after.
    Hide,
    /// It was hidden: show the window, clear the search box and add the visible style.
    Show,
}

/// Toggling hides a visible launcher and shows a hidden one.
pub fn toggle_action(is_visible: bool) -> (a: ToggleAction)
    ensures
        a == (if is_visible {
            ToggleAction::Hide
        } else {
            ToggleAction::Show
        }),
{
    if is_visible {
        ToggleAction::Hide
    } else {
        ToggleAction::Show
    }
}

/// The character of the decimal digit `d`.
pub open spec fn digit_char(d: nat) -> char {
    ('0' as u32 + d) as char
}

/// The decimal notation of `n`, without leading zeros.
pub open spec fn decimal(n: nat) -> Seq<char>
    decreases n,
{
    if n < 10 {
        seq![digit_char(n)]
    } else {
        decimal(n / 10).push(digit_char(n % 10))
    }
}

fn digit(d: usize) -> (c: char)
    requires
        d < 10,
    ensures
        c == digit_char(d as nat),
{
    let b: u8 = 48u8 + (d as u8);
    b as char
}

/// Appends the decimal notation of `n`.
pub fn push_decimal(s: &mut String, n: usize)
    ensures
        final(s)@ == old(s)@ + decimal(n as nat),
    decreases n,
{
    if n >= 10 {
        push_decimal(s, n / 10);
    }
    push_char(s, digit(n % 10));
    assert(final(s)@ =~= old(s)@ + decimal(n as nat)) by {
        if n >= 10 {
            assert(old(s)@ + decimal((n / 10) as nat) + seq![digit_char((n % 10) as nat)] =~= old(s)@
                + decimal(n as nat));
        }
    }
}

/// The footer text that counts the search results, such as "3 results".
pub fn results_label(num_of_apps: usize) -> (s: String)
    ensures
        s@ == decimal(num_of_apps as nat) + " results"@,
{
    let mut s = String::new();
    push_decimal(&mut s, num_of_apps);
    s.append(" results");
    assert(s@ =~= decimal(num_of_apps as nat) + " results"@);
    s
}

/// Whether the launcher is visible after carrying out a toggle action.
pub open spec fn visible_after(a: ToggleAction) -> bool {
    a == ToggleAction::Show
}

/// Toggling flips the launcher's visibility, so toggling twice restores it.
pub proof fn lemma_toggle_twice_restores(is_visible: bool)
    ensures
        ({
            let first = if is_visible { ToggleAction::Hide } else { ToggleAction::Show };
            let v1 = visible_after(first);
            let second = if v1 { ToggleAction::Hide } else { ToggleAction::Show };
            v1 == !is_visible && visible_after(second) == is_visible
        }),
{
}

/// Escape toggles the launcher whatever character the key carries, and a key with
/// a printable character adds exactly that character at the end of the search text.
pub proof fn lemma_key_outcomes(key_char: Option<char>, text: Seq<char>, c: char)
    ensures
        key_outcome(true, key_char, text) == KeyOutcomeModel::Toggle,
        !spec_is_control(c) ==> key_outcome(false, Some(c), text) == KeyOutcomeModel::InsertText(
            text.push(c),
        ),
        spec_is_control(c) ==> key_outcome(false, Some(c), text) == KeyOutcomeModel::Ignore,
{
}

/// A key press that carries a character (and is not Escape) types that character
/// at the end of the search text exactly when it is not a control character of
/// Unicode category Cc, U+0000 to U+001F and U+007F to U+009F; such a key is
/// ignored. So digits, letters, punctuation and the space are all typed.
pub proof fn lemma_typed_unless_control(c: char, text: Seq<char>)
    ensures
        key_outcome(false, Some(c), text) == (if (c as u32) <= 0x1f || (0x7f <= (c as u32) && (c
            as u32) <= 0x9f) {
            KeyOutcomeModel::Ignore
        } else {
            KeyOutcomeModel::InsertText(text.push(c))
        }),
        0x20 <= (c as u32) <= 0x7e ==> key_outcome(false, Some(c), text) == KeyOutcomeModel::InsertText(
            text.push(c),
        ),
        (c as u32) >= 0xa0 ==> key_outcome(false, Some(c), text) == KeyOutcomeModel::InsertText(
            text.push(c),
        ),
{
}

/// The number that a text of decimal digits stands for.
pub open spec fn digits_value(s: Seq<char>) -> int
    decreases s.len(),
{
    if s.len() == 0 {
        0
    } else {
        digits_value(s.drop_last()) * 10 + ((s.last() as u32) as int - ('0' as u32) as int)
    }
}

/// The decimal notation of `n` (as the results label shows it) is the standard
/// one: it is made of the digits '0' to '9', it reads back as `n`, it starts with
/// '0' only for zero, and it has one digit more than that of `n / 10` when `n`
/// is 10 or more (one digit below 10).
pub proof fn lemma_decimal_reads_back(n: nat)
    ensures
        decimal(n).len() > 0,
        forall|i: int| 0 <= i < decimal(n).len() ==> '0' <= #[trigger] decimal(n)[i] && decimal(n)[i] <= '9',
        digits_value(decimal(n)) == n,
        n > 0 ==> decimal(n)[0] != '0',
        n < 10 ==> decimal(n).len() == 1,
        n >= 10 ==> decimal(n).len() == decimal(n / 10).len() + 1,
    decreases n,
{
    if n < 10 {
        let s = decimal(n);
        assert(s.drop_last() =~= Seq::<char>::empty());
        assert((s.last() as u32) as int == 48 + n);
        assert(('0' as u32) as int == 48);
        assert(digits_value(s.drop_last()) == 0);
        assert(digits_value(s) == digits_value(s.drop_last()) * 10 + ((s.last() as u32) as int - ('0'
            as u32) as int));
    } else {
        lemma_decimal_reads_back(n / 10);
        let s = decimal(n);
        let p = decimal(n / 10);
        assert(s.drop_last() =~= p);
        assert((s.last() as u32) as int == 48 + n % 10);
        assert(s[0] == p[0]);
        assert forall|i: int| 0 <= i < s.len() implies '0' <= #[trigger] s[i] && s[i] <= '9' by {
            if i < p.len() {
                assert(s[i] == p[i]);
            }
        }
        assert((n / 10) * 10 + n % 10 == n);
        assert(('0' as u32) as int == 48);
        assert(digits_value(s) == digits_value(p) * 10 + ((s.last() as u32) as int - ('0' as u32) as int));
    }
}

} // verus!
