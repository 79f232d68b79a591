//! Messages from the Arduino controller: the text protocol and the peak
//! threshold of the HTTP routes.
use vstd::prelude::*;
use crate::game::ArduinoAction;

verus! {

/// A reading must exceed this peak to count as a gesture.
pub open spec fn peak_threshold() -> int {
    900
}

/// The characters with Unicode's White_Space property.
pub open spec fn is_space(c: char) -> bool {
    ||| '\t' <= c <= '\r'
    ||| c == ' '
    ||| c == '\u{85}'
    ||| c == '\u{a0}'
    ||| c == '\u{1680}'
    ||| '\u{2000}' <= c <= '\u{200a}'
    ||| c == '\u{2028}'
    ||| c == '\u{2029}'
    ||| c == '\u{202f}'
    ||| c == '\u{205f}'
    ||| c == '\u{3000}'
}

/// Whether `c` is white space.
pub fn space_char(c: char) -> (res: bool)
    ensures
        res == is_space(c),
{
    ('\t' <= c && c <= '\r') || c == ' ' || c == '\u{85}' || c == '\u{a0}' || c == '\u{1680}' || ('\u{2000}' <= c
        && c <= '\u{200a}') || c == '\u{2028}' || c == '\u{2029}' || c == '\u{202f}' || c == '\u{205f}' || c
        == '\u{3000}'
}

/// The words of `s` (its maximal runs of characters that are not white
/// space), read left to right: the words finished so far and the word
/// being read.
pub open spec fn words_so_far(s: Seq<char>) -> (Seq<Seq<char>>, Seq<char>)
    decreases s.len(),
{
    if s.len() == 0 {
        (Seq::empty(), Seq::empty())
    } else {
        let (done, current) = words_so_far(s.drop_last());
        if is_space(s.last()) {
            if current.len() > 0 {
                (done.push(current), Seq::empty())
            } else {
                (done, current)
            }
        } else {
            (done, current.push(s.last()))
        }
    }
}

/// The words of `s`, in order.
pub open spec fn words(s: Seq<char>) -> Seq<Seq<char>> {
    let (done, current) = words_so_far(s);
    if current.len() > 0 {
        done.push(current)
    } else {
        done
    }
}

/// The value of a run of decimal digits.
pub open spec fn digits_value(ds: Seq<char>) -> int
    decreases ds.len(),
{
    if ds.len() == 0 {
        0
    } else {
        digits_value(ds.drop_last()) * 10 + (ds.last() as int - '0' as int)
    }
}

/// Every character is a decimal digit.
pub open spec fn all_digits(ds: Seq<char>) -> bool {
    forall|i: int| 0 <= i < ds.len() ==> '0' <= #[trigger] ds[i] <= '9'
}

/// The `i32` written in `w`: an optional `+` or `-`, then one or more
/// decimal digits, within the range of `i32`; `None` for anything else.
pub open spec fn parsed_i32(w: Seq<char>) -> Option<i32> {
    let negative = w.len() > 0 && w[0] == '-';
    let signed = w.len() > 0 && (w[0] == '-' || w[0] == '+');
    let ds = if signed { w.drop_first() } else { w };
    let v = if negative { -digits_value(ds) } else { digits_value(ds) };
    if ds.len() > 0 && all_digits(ds) && i32::MIN <= v <= i32::MAX {
        Some(v as i32)
    } else {
        None
    }
}

/// Why a text message names no action.
#[derive(Clone, Copy, Debug, PartialEq, Eq, Structural)]
pub enum MessageFault {
    /// The message does not hold exactly two words.
    BadFormat,
    /// The peak (0 when it is not an `i32`) does not exceed the threshold.
    PeakTooLow(i32),
    /// The first word names no action.
    UnknownAction,
}

/// The action a message names with a peak above the threshold.
pub open spec fn named_action(name: Seq<char>) -> Option<ArduinoAction> {
    if name == seq!['m', 'o', 'v', 'e', '_', 'r', 'i', 'g', 'h', 't'] {
        Some(ArduinoAction::MoveRight)
    } else if name == seq!['m', 'o', 'v', 'e', '_', 'l', 'e', 'f', 't'] {
        Some(ArduinoAction::MoveLeft)
    } else if name == seq!['s', 'h', 'o', 'o', 't'] {
        Some(ArduinoAction::Shoot)
    } else {
        None
    }
}

/// The reading of a text message "`name` `peak`": exactly two words; a
/// peak that is not an `i32` counts as 0; the peak must exceed the
/// threshold; then the name must be one of the three actions.
pub open spec fn message_reading(msg: Seq<char>) -> Result<ArduinoAction, MessageFault> {
    let ws = words(msg);
    if ws.len() != 2 {
        Err(MessageFault::BadFormat)
    } else {
        let peak: i32 = match parsed_i32(ws[1]) {
            Some(v) => v,
            None => 0,
        };
        if peak <= peak_threshold() {
            Err(MessageFault::PeakTooLow(peak))
        } else {
            match named_action(ws[0]) {
                Some(a) => Ok(a),
                None => Err(MessageFault::UnknownAction),
            }
        }
    }
}

/// The action of a text message, if it names one.
pub open spec fn message_meaning(msg: Seq<char>) -> Option<ArduinoAction> {
    match message_reading(msg) {
        Ok(a) => Some(a),
        Err(_) => None,
    }
}

/// Splits `msg` into its words.
fn split_words(msg: &str) -> (res: Vec<Vec<char>>)
    ensures
        res@.len() == words(msg@).len(),
        forall|i: int| 0 <= i < res@.len() ==> #[trigger] res@[i]@ == words(msg@)[i],
{
    let mut done: Vec<Vec<char>> = Vec::new();
    let mut current: Vec<char> = Vec::new();
    let ghost s = msg@;
    for c in it: msg.chars()
        invariant
            it.seq() == s,
            s == msg@,
            0 <= it.index() <= s.len(),
            done@.len() == words_so_far(s.take(it.index())).0.len(),
            forall|i: int| 0 <= i < done@.len() ==> #[trigger] done@[i]@ == words_so_far(s.take(it.index())).0[i],
            current@ == words_so_far(s.take(it.index())).1,
    {
        proof {
            let before = s.take(it.index());
            assert(s.take(it.index() + 1).drop_last() =~= before);
            assert(s.take(it.index() + 1).last() == c);
        }
        if space_char(c) {
            if current.len() > 0 {
                let word = current;
                done.push(word);
                current = Vec::new();
            }
        } else {
            current.push(c);
        }
    }
    proof {
        assert(s.take(s.len() as int) =~= s);
    }
    if current.len() > 0 {
        done.push(current);
    }
    done
}

/// The `i32` written in `w` (see `parsed_i32`).
fn parse_i32(w: &Vec<char>) -> (res: Option<i32>)
    ensures
        res == parsed_i32(w@),
{
    let n = w.len();
    if n == 0 {
        return None;
    }
    let negative = w[0] == '-';
    let signed = w[0] == '-' || w[0] == '+';
    let start: usize = if signed {
        1
    } else {
        0
    };
    if start >= n {
        return None;
    }
    let ghost ds = if signed { w@.drop_first() } else { w@ };
    let mut value: i64 = 0;
    let mut i: usize = start;
    while i < n
        invariant
            start <= i <= n,
            n == w@.len(),
            ds == w@.subrange(start as int, n as int),
            n > 0,
            negative == (w@[0] == '-'),
            signed == (w@[0] == '-' || w@[0] == '+'),
            ds == (if signed { w@.drop_first() } else { w@ }),
            start == (if signed { 1int } else { 0int }),
            all_digits(ds.take(i - start)),
            value == digits_value(ds.take(i - start)),
            0 <= value <= i32::MAX as int + 1,
        decreases n - i,
    {
        let c = w[i];
        if c < '0' || c > '9' {
            proof {
                assert(!all_digits(ds)) by {
                    assert(ds[i - start] == c);
                }
            }
            return None;
        }
        let digit = (c as u32 - '0' as u32) as i64;
        proof {
            assert(ds.take(i - start + 1).drop_last() =~= ds.take(i - start));
        }
        let next = value * 10 + digit;
        if next > i32::MAX as i64 + 1 {
            proof {
                if all_digits(ds) {
                    lemma_digits_value_grows(ds, i - start + 1);
                }
            }
            return None;
        }
        value = next;
        i = i + 1;
    }
    proof {
        assert(ds.take(n - start) =~= ds);
    }
    if negative {
        Some((-value) as i32)
    } else if value <= i32::MAX as i64 {
        Some(value as i32)
    } else {
        None
    }
}

/// Adding digits never makes the value smaller.
proof fn lemma_digits_value_grows(ds: Seq<char>, k: int)
    requires
        0 <= k <= ds.len(),
        all_digits(ds),
    ensures
        digits_value(ds) >= digits_value(ds.take(k)),
        digits_value(ds.take(k)) >= 0,
    decreases ds.len(),
{
    if k == ds.len() {
        assert(ds.take(k) =~= ds);
        lemma_digits_value_nonneg(ds);
    } else {
        assert(all_digits(ds.drop_last()));
        lemma_digits_value_grows(ds.drop_last(), k);
        assert(ds.drop_last().take(k) =~= ds.take(k));
        lemma_digits_value_nonneg(ds.drop_last());
    }
}

/// A run of digits has a value of at least zero.
proof fn lemma_digits_value_nonneg(ds: Seq<char>)
    requires
        all_digits(ds),
    ensures
        digits_value(ds) >= 0,
    decreases ds.len(),
{
    if ds.len() > 0 {
        assert(all_digits(ds.drop_last()));
        lemma_digits_value_nonneg(ds.drop_last());
    }
}

/// Whether `word` spells `expected`.
fn word_is(word: &Vec<char>, expected: &[char]) -> (res: bool)
    ensures
        res == (word@ == expected@),
{
    if word.len() != expected.len() {
        return false;
    }
    let mut i: usize = 0;
    while i < word.len()
        invariant
            i <= word@.len(),
            word@.len() == expected@.len(),
            forall|j: int| 0 <= j < i ==> word@[j] == expected@[j],
        decreases word@.len() - i,
    {
        if word[i] != expected[i] {
            return false;
        }
        i = i + 1;
    }
    assert(word@ =~= expected@);
    true
}

/// Reads a text message "`name` `peak`" from the Arduino, and says why
/// when it names no action: it must hold exactly two words; a peak that
/// is not an `i32` counts as 0 and must be above 900; `move_right`,
/// `move_left` and `shoot` name the three actions.
pub fn read_message(msg: &str) -> (res: Result<ArduinoAction, MessageFault>)
    ensures
        res == message_reading(msg@),
{
    let parts = split_words(msg);
    if parts.len() != 2 {
        return Err(MessageFault::BadFormat);
    }
    let peak: i32 = match parse_i32(&parts[1]) {
        Some(v) => v,
        None => 0,
    };
    if peak <= 900 {
        return Err(MessageFault::PeakTooLow(peak));
    }
    let action = &parts[0];
    let right = ['m', 'o', 'v', 'e', '_', 'r', 'i', 'g', 'h', 't'];
    let left = ['m', 'o', 'v', 'e', '_', 'l', 'e', 'f', 't'];
    let shoot = ['s', 'h', 'o', 'o', 't'];
    proof {
        assert(right@ =~= seq!['m', 'o', 'v', 'e', '_', 'r', 'i', 'g', 'h', 't']);
        assert(left@ =~= seq!['m', 'o', 'v', 'e', '_', 'l', 'e', 'f', 't']);
        assert(shoot@ =~= seq!['s', 'h', 'o', 'o', 't']);
    }
    if word_is(action, &right) {
        Ok(ArduinoAction::MoveRight)
    } else if word_is(action, &left) {
        Ok(ArduinoAction::MoveLeft)
    } else if word_is(action, &shoot) {
        Ok(ArduinoAction::Shoot)
    } else {
        Err(MessageFault::UnknownAction)
    }
}

/// Reads a text message "`name` `peak`" from the Arduino: the action it
/// names (see `read_message`), if any.
pub fn process_message(msg: &str) -> (res: Option<ArduinoAction>)
    ensures
        res == message_meaning(msg@),
{
    match read_message(msg) {
        Ok(a) => Some(a),
        Err(_) => None,
    }
}

/// One of the HTTP routes of the controller server.
#[derive(Clone, Copy, Debug, PartialEq, Eq, Structural)]
pub enum PeakRoute {
    PeakRight,
    PeakLeft,
    PeakShoot,
}

/// The reply text of a route.
pub open spec fn route_reply(route: PeakRoute, peak: i32) -> Seq<char> {
    if peak > peak_threshold() {
        match route {
            PeakRoute::PeakRight => "Moved right"@,
            PeakRoute::PeakLeft => "Moved left"@,
            PeakRoute::PeakShoot => "Shooting"@,
        }
    } else {
        "Peak too low"@
    }
}

/// The action a route names.
pub open spec fn route_action(route: PeakRoute) -> ArduinoAction {
    match route {
        PeakRoute::PeakRight => ArduinoAction::MoveRight,
        PeakRoute::PeakLeft => ArduinoAction::MoveLeft,
        PeakRoute::PeakShoot => ArduinoAction::Shoot,
    }
}

/// What a route does with a posted peak: above 900 it sends the route's
/// action and says so; otherwise it sends nothing and answers that the
/// peak is too low.
pub fn peak_reply(route: PeakRoute, peak: i32) -> (res: (Option<ArduinoAction>, String))
    ensures
        res.0 == (if peak > peak_threshold() { Some(route_action(route)) } else { None }),
        res.1@ == route_reply(route, peak),
{
    if peak > 900 {
        match route {
            PeakRoute::PeakRight => (Some(ArduinoAction::MoveRight), "Moved right".to_string()),
            PeakRoute::PeakLeft => (Some(ArduinoAction::MoveLeft), "Moved left".to_string()),
            PeakRoute::PeakShoot => (Some(ArduinoAction::Shoot), "Shooting".to_string()),
        }
    } else {
        (None, "Peak too low".to_string())
    }
}

} // verus!
