use vstd::prelude::*;
use vstd::string::StrSliceExecFns;

verus! {

/// Default reading speed, in words per minute.
pub const WPM: usize = 220;

/// Whole minutes needed to read `word_count` words at `WPM`, rounded up.
pub open spec fn read_minutes(word_count: nat) -> nat {
    if word_count % (WPM as nat) == 0 {
        word_count / (WPM as nat)
    } else {
        word_count / (WPM as nat) + 1
    }
}

/// Read time in minutes for a text of `word_count` words; zero where the
/// minutes do not fit in a `u32`.
pub fn read_time_from_word_count(word_count: usize) -> (r: u32)
    ensures
        read_minutes(word_count as nat) <= u32::MAX ==> r as nat == read_minutes(word_count as nat),
        read_minutes(word_count as nat) > u32::MAX ==> r == 0,
{
    let mut minutes: usize = word_count / WPM;
    if word_count % WPM != 0 {
        minutes = minutes + 1;
    }
    if minutes <= u32::MAX as usize {
        minutes as u32
    } else {
        0
    }
}

/// Unicode's White_Space characters, those that separate words.
pub open spec fn is_white_space(c: char) -> bool {
    let n = c as u32;
    (0x9 <= n && n <= 0xD) || n == 0x20 || n == 0x85 || n == 0xA0 || n == 0x1680 || (0x2000 <= n
        && n <= 0x200A) || n == 0x2028 || n == 0x2029 || n == 0x202F || n == 0x205F || n
        == 0x3000
}

/// Whether `c` separates words.
pub fn white_space(c: char) -> (r: bool)
    ensures
        r == is_white_space(c),
{
    let n = c as u32;
    (0x9 <= n && n <= 0xD) || n == 0x20 || n == 0x85 || n == 0xA0 || n == 0x1680 || (0x2000 <= n
        && n <= 0x200A) || n == 0x2028 || n == 0x2029 || n == 0x202F || n == 0x205F || n
        == 0x3000
}

/// Number of words of `s`: its maximal runs of non-white-space characters,
/// each counted where it starts.
pub open spec fn word_count_of(s: Seq<char>) -> nat
    decreases s.len(),
{
    if s.len() == 0 {
        0
    } else {
        word_count_of(s.drop_last()) + if !is_white_space(s.last()) && (s.len() == 1
            || is_white_space(s[s.len() - 2])) {
            1nat
        } else {
            0nat
        }
    }
}

/// Number of words of `text`.
pub fn word_count(text: &str) -> (r: usize)
    ensures
        r == word_count_of(text@),
{
    let len = text.unicode_len();
    let mut count: usize = 0;
    let mut after_space = true;
    for c in it: text.chars()
        invariant
            len == text@.len(),
            it.seq() == text@,
            count <= it.index(),
            count == word_count_of(text@.take(it.index() as int)),
            after_space == (it.index() == 0 || is_white_space(text@[it.index() - 1])),
    {
        let white = white_space(c);
        proof {
            let i = it.index() as int;
            let t = text@.take(i + 1);
            assert(t.drop_last() =~= text@.take(i));
            assert(t.last() == c);
            if i > 0 {
                assert(t[i - 1] == text@[i - 1]);
            }
        }
        if !white && after_space {
            count = count + 1;
        }
        after_space = white;
    }
    proof {
        assert(text@.take(len as int) =~= text@);
    }
    count
}

/// Estimated minutes to read `text` at `WPM` words per minute, rounded up;
/// zero where that does not fit in a `u32`.
pub fn estimate_read_time(text: &str) -> (r: u32)
    ensures
        read_minutes(word_count_of(text@)) <= u32::MAX ==> r as nat == read_minutes(
            word_count_of(text@),
        ),
        read_minutes(word_count_of(text@)) > u32::MAX ==> r == 0,
{
    read_time_from_word_count(word_count(text))
}

} // verus!
