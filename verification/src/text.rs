use vstd::prelude::*;

verus! {

/// Whether two strings hold the same characters.
pub fn same_text(a: &str, b: &str) -> (equal: bool)
    ensures
        equal == (a@ == b@),
{
    let x = a.to_owned();
    let y = b.to_owned();
    x == y
}


/// The decimal digit character for `d` (0 to 9).
pub open spec fn digit_char(d: nat) -> char {
    if d == 0 { '0' }
    else if d == 1 { '1' }
    else if d == 2 { '2' }
    else if d == 3 { '3' }
    else if d == 4 { '4' }
    else if d == 5 { '5' }
    else if d == 6 { '6' }
    else if d == 7 { '7' }
    else if d == 8 { '8' }
    else { '9' }
}

/// The decimal notation of `n`, without leading zeros.
pub open spec fn decimal(n: nat) -> Seq<char>
    decreases n,
{
    if n < 10 {
        seq![digit_char(n)]
    } else {
        decimal(n / 10).push(digit_char(n % 10))
    }
}

/// The decimal notation of a signed number, with a leading `-` when negative.
pub open spec fn signed_decimal(n: int) -> Seq<char> {
    if n < 0 {
        seq!['-'] + decimal((-n) as nat)
    } else {
        decimal(n as nat)
    }
}

fn digit_text(d: u32) -> (s: &'static str)
    requires
        d < 10,
    ensures
        s@ == seq![digit_char(d as nat)],
{
    proof {
        reveal_strlit("0");
        reveal_strlit("1");
        reveal_strlit("2");
        reveal_strlit("3");
        reveal_strlit("4");
        reveal_strlit("5");
        reveal_strlit("6");
        reveal_strlit("7");
        reveal_strlit("8");
        reveal_strlit("9");
    }
    if d == 0 { "0" }
    else if d == 1 { "1" }
    else if d == 2 { "2" }
    else if d == 3 { "3" }
    else if d == 4 { "4" }
    else if d == 5 { "5" }
    else if d == 6 { "6" }
    else if d == 7 { "7" }
    else if d == 8 { "8" }
    else {
        assert(seq![digit_char(d as nat)] =~= "9"@);
        "9"
    }
}

/// Appends the decimal notation of `n` to `s`.
pub fn push_decimal(s: &mut String, n: u32)
    ensures
        final(s)@ == old(s)@ + decimal(n as nat),
    decreases n,
{
    if n >= 10 {
        push_decimal(s, n / 10);
    }
    let ghost before = s@;
    s.append(digit_text(n % 10));
    proof {
        if n >= 10 {
            assert(s@ =~= old(s)@ + decimal(n as nat));
        } else {
            assert(s@ =~= old(s)@ + decimal(n as nat));
        }
    }
}

/// Appends the decimal notation of a signed number to `s`.
pub fn push_signed_decimal(s: &mut String, n: i32)
    ensures
        final(s)@ == old(s)@ + signed_decimal(n as int),
{
    if n < 0 {
        proof {
            reveal_strlit("-");
        }
        s.append("-");
        let magnitude: u32 = if n == i32::MIN { 2147483648u32 } else { (-n) as u32 };
        push_decimal(s, magnitude);
        assert(s@ =~= old(s)@ + signed_decimal(n as int));
    } else {
        push_decimal(s, n as u32);
    }
}


/// Appends a character with `String::push`.
#[verifier::external_body]
pub(crate) fn string_push(s: &mut String, c: char)
    ensures
        final(s)@ == old(s)@.push(c),
{
    s.push(c);
}

/// Removes the last character, if any, with `String::pop`.
#[verifier::external_body]
pub(crate) fn string_pop(s: &mut String)
    ensures
        old(s)@.len() == 0 ==> final(s)@ == old(s)@,
        old(s)@.len() > 0 ==> final(s)@ == old(s)@.drop_last(),
{
    s.pop();
}

/// The length in bytes of the UTF-8 encoding of `s`.
pub open spec fn utf8_len(s: Seq<char>) -> nat {
    vstd::utf8::encode_utf8(s).len()
}

/// A control character (Unicode general category Cc: U+0000 to U+001F and
/// U+007F to U+009F), as `char::is_control` decides.
pub open spec fn is_control(c: char) -> bool {
    (c as u32) <= 0x1f || (0x7f <= (c as u32) && (c as u32) <= 0x9f)
}

/// Whether `c` is a control character.
pub fn char_is_control(c: char) -> (r: bool)
    ensures
        r == is_control(c),
{
    let u = c as u32;
    u <= 0x1f || (0x7f <= u && u <= 0x9f)
}


// ── Word wrapping ─────────────────────────────────────────────────────────

/// A whitespace character (Unicode property White_Space), as
/// `char::is_whitespace` decides.
pub open spec fn is_whitespace(c: char) -> bool {
    let u = c as u32;
    (0x9 <= u && u <= 0xd) || u == 0x20 || u == 0x85 || u == 0xa0 || u == 0x1680 || (0x2000 <= u && u <= 0x200a)
        || u == 0x2028 || u == 0x2029 || u == 0x202f || u == 0x205f || u == 0x3000
}

/// Whether `c` is a whitespace character.
pub fn char_is_whitespace(c: char) -> (r: bool)
    ensures
        r == is_whitespace(c),
{
    let u = c as u32;
    (0x9 <= u && u <= 0xd) || u == 0x20 || u == 0x85 || u == 0xa0 || u == 0x1680 || (0x2000 <= u && u <= 0x200a)
        || u == 0x2028 || u == 0x2029 || u == 0x202f || u == 0x205f || u == 0x3000
}

/// Reading `s` left to right: the words completed so far and the word being read.
pub open spec fn scan_words(s: Seq<char>) -> (Seq<Seq<char>>, Seq<char>)
    decreases s.len(),
{
    if s.len() == 0 {
        (Seq::empty(), Seq::empty())
    } else {
        let (done, cur) = scan_words(s.drop_last());
        let c = s.last();
        if is_whitespace(c) {
            if cur.len() > 0 { (done.push(cur), Seq::empty()) } else { (done, cur) }
        } else {
            (done, cur.push(c))
        }
    }
}

/// The words of `s`: its maximal runs of non-whitespace characters, in order.
pub open spec fn split_words(s: Seq<char>) -> Seq<Seq<char>> {
    let (done, cur) = scan_words(s);
    if cur.len() > 0 { done.push(cur) } else { done }
}

/// The byte length of `s` as `str::len` reports it.
pub open spec fn byte_len(s: Seq<char>) -> usize {
    utf8_len(s) as usize
}

/// A word fits after `cur` on a line of `max` bytes, with one space between.
pub open spec fn fits_after(cur: Seq<char>, w: Seq<char>, max: usize) -> bool {
    byte_len(cur) + 1 + byte_len(w) <= max
}

/// Filling lines word by word: the lines completed so far and the line being filled.
pub open spec fn scan_lines(words: Seq<Seq<char>>, max: usize) -> (Seq<Seq<char>>, Seq<char>)
    decreases words.len(),
{
    if words.len() == 0 {
        (Seq::empty(), Seq::empty())
    } else {
        let (lines, cur) = scan_lines(words.drop_last(), max);
        let w = words.last();
        if cur.len() == 0 {
            (lines, w)
        } else if fits_after(cur, w, max) {
            (lines, cur + seq![' '] + w)
        } else {
            (lines.push(cur), w)
        }
    }
}

/// Greedy wrapping of the words of `s` into lines of at most `max` bytes: a
/// word goes on the current line (after one space) when it fits, else it
/// starts a new line; a word longer than a line stands alone.
pub open spec fn wrapped_lines(s: Seq<char>, max: usize) -> Seq<Seq<char>> {
    let (lines, cur) = scan_lines(split_words(s), max);
    if cur.len() > 0 { lines.push(cur) } else { lines }
}

/// The words of `text`, split at whitespace.
pub fn split_whitespace_words(text: &str) -> (words: Vec<String>)
    ensures
        words@.map_values(|w: String| w@) == split_words(text@),
{
    let n = text.unicode_len();
    let mut done: Vec<String> = Vec::new();
    let mut cur = String::new();
    let mut i: usize = 0;
    while i < n
        invariant
            n == text@.len(),
            i <= n,
            (done@.map_values(|w: String| w@), cur@) == scan_words(text@.take(i as int)),
        decreases n - i,
    {
        let c = text.get_char(i);
        proof {
            assert(text@.take(i + 1).drop_last() =~= text@.take(i as int));
            assert(text@.take(i + 1).last() == c);
        }
        if char_is_whitespace(c) {
            if cur.unicode_len() > 0 {
                let ghost before = done@;
                let word = cur;
                cur = String::new();
                done.push(word);
                assert(done@.map_values(|w: String| w@) =~= before.map_values(|w: String| w@).push(word@));
            }
        } else {
            string_push(&mut cur, c);
        }
        i = i + 1;
    }
    assert(text@.take(n as int) =~= text@);
    if cur.unicode_len() > 0 {
        let ghost before = done@;
        done.push(cur);
        assert(done@.map_values(|w: String| w@) =~= before.map_values(|w: String| w@).push(cur@));
    }
    done
}

/// Wraps `text` into lines of at most `max_chars` bytes; see `wrapped_lines`.
pub fn wrap_text(text: &str, max_chars: usize) -> (lines: Vec<String>)
    ensures
        lines@.map_values(|l: String| l@) == wrapped_lines(text@, max_chars),
{
    let words = split_whitespace_words(text);
    let ghost ws = words@.map_values(|w: String| w@);
    let n = words.len();
    let mut lines: Vec<String> = Vec::new();
    let mut current = String::new();
    let mut i: usize = 0;
    while i < n
        invariant
            n == words@.len(),
            ws == words@.map_values(|w: String| w@),
            i <= n,
            (lines@.map_values(|l: String| l@), current@) == scan_lines(ws.take(i as int), max_chars),
        decreases n - i,
    {
        proof {
            assert(ws.take(i + 1).drop_last() =~= ws.take(i as int));
            assert(ws.take(i + 1).last() == words@[i as int]@);
        }
        let word = &words[i];
        if current.unicode_len() == 0 {
            current = word.clone();
        } else {
            let cl = current.as_str().len();
            let wl = word.as_str().len();
            if cl < max_chars && wl <= max_chars - cl - 1 {
                proof {
                    reveal_strlit(" ");
                }
                current.append(" ");
                current.append(word.as_str());
                assert(current@ =~= scan_lines(ws.take(i + 1), max_chars).1);
            } else {
                let ghost before = lines@;
                let finished = current;
                current = word.clone();
                lines.push(finished);
                assert(lines@.map_values(|l: String| l@) =~= before.map_values(|l: String| l@).push(finished@));
            }
        }
        i = i + 1;
    }
    assert(ws.take(n as int) =~= ws);
    if current.unicode_len() > 0 {
        let ghost before = lines@;
        lines.push(current);
        assert(lines@.map_values(|l: String| l@) =~= before.map_values(|l: String| l@).push(current@));
    }
    lines
}


/// Words joined with single spaces.
pub open spec fn join_words(ws: Seq<Seq<char>>) -> Seq<char>
    decreases ws.len(),
{
    if ws.len() == 0 {
        Seq::empty()
    } else if ws.len() == 1 {
        ws[0]
    } else {
        join_words(ws.drop_last()) + seq![' '] + ws.last()
    }
}

proof fn lemma_scan_words_nonempty(s: Seq<char>)
    ensures
        forall|i: int| 0 <= i < scan_words(s).0.len() ==> #[trigger] scan_words(s).0[i].len() > 0,
        forall|i: int| 0 <= i < scan_words(s).0.len() ==> !(#[trigger] scan_words(s).0[i]).contains(' '),
        !scan_words(s).1.contains(' '),
    decreases s.len(),
{
    if s.len() > 0 {
        lemma_scan_words_nonempty(s.drop_last());
        let (done, cur) = scan_words(s.drop_last());
        let c = s.last();
        if !is_whitespace(c) {
            assert(c != ' ');
            assert forall|k: int| 0 <= k < cur.push(c).len() implies cur.push(c)[k] != ' ' by {
                if k < cur.len() {
                    assert(cur[k] != ' ') by {
                        if cur[k] == ' ' {
                            assert(cur.contains(' '));
                        }
                    }
                }
            }
        }
    }
}

/// Every word is non-empty and holds no space.
pub proof fn lemma_split_words_are_words(s: Seq<char>)
    ensures
        forall|i: int| 0 <= i < split_words(s).len() ==> #[trigger] split_words(s)[i].len() > 0,
        forall|i: int| 0 <= i < split_words(s).len() ==> !(#[trigger] split_words(s)[i]).contains(' '),
{
    lemma_scan_words_nonempty(s);
}

proof fn lemma_join_push_space(l: Seq<Seq<char>>, a: Seq<char>, b: Seq<char>)
    ensures
        join_words(l.push(a + seq![' '] + b)) == join_words(l.push(a)) + seq![' '] + b,
{
    assert(l.push(a + seq![' '] + b).drop_last() =~= l);
    assert(l.push(a).drop_last() =~= l);
    if l.len() == 0 {
        assert(l.push(a)[0] == a);
    } else {
        assert(join_words(l) + seq![' '] + (a + seq![' '] + b) =~= join_words(l) + seq![' '] + a + seq![' '] + b);
    }
}

proof fn lemma_scan_lines_join(ws: Seq<Seq<char>>, max: usize)
    requires
        forall|i: int| 0 <= i < ws.len() ==> #[trigger] ws[i].len() > 0,
    ensures
        ws.len() == 0 ==> scan_lines(ws, max).0.len() == 0 && scan_lines(ws, max).1.len() == 0,
        ws.len() > 0 ==> scan_lines(ws, max).1.len() > 0 && join_words(scan_lines(ws, max).0.push(
            scan_lines(ws, max).1,
        )) == join_words(ws),
    decreases ws.len(),
{
    if ws.len() > 0 {
        let prev = ws.drop_last();
        lemma_scan_lines_join(prev, max);
        let (lines, cur) = scan_lines(prev, max);
        let w = ws.last();
        assert(w.len() > 0);
        if cur.len() == 0 {
            assert(prev.len() == 0);
            assert(lines.push(w).len() == 1);
        } else if fits_after(cur, w, max) {
            lemma_join_push_space(lines, cur, w);
        } else {
            assert(lines.push(cur).push(w).drop_last() =~= lines.push(cur));
        }
    }
}

/// Wrapping loses no word and adds none: the lines joined with spaces are
/// the words of the text joined with spaces.
pub proof fn lemma_wrapping_keeps_the_words(s: Seq<char>, max: usize)
    ensures
        join_words(wrapped_lines(s, max)) == join_words(split_words(s)),
{
    lemma_split_words_are_words(s);
    lemma_scan_lines_join(split_words(s), max);
}


/// The UTF-8 encoding of a concatenation is the concatenation of the encodings.
pub proof fn lemma_utf8_len_concat(a: Seq<char>, b: Seq<char>)
    ensures
        utf8_len(a + b) == utf8_len(a) + utf8_len(b),
    decreases a.len(),
{
    if a.len() > 0 {
        assert((a + b).drop_first() =~= a.drop_first() + b);
        assert((a + b)[0] == a[0]);
        lemma_utf8_len_concat(a.drop_first(), b);
    } else {
        assert(a + b =~= b);
    }
}

proof fn lemma_utf8_len_space()
    ensures
        utf8_len(seq![' ']) == 1,
{
    assert(seq![' '].drop_first() =~= Seq::<char>::empty());
    assert((' ' as u32) == 32);
    assert(vstd::utf8::encode_scalar(32u32).len() == 1);
    assert(vstd::utf8::encode_utf8(seq![' ']) == vstd::utf8::encode_scalar(32u32) + vstd::utf8::encode_utf8(Seq::<char>::empty()));
}

proof fn lemma_scan_lines_fit(ws: Seq<Seq<char>>, max: usize)
    requires
        forall|i: int| 0 <= i < ws.len() ==> !(#[trigger] ws[i]).contains(' '),
        forall|i: int| 0 <= i < ws.len() ==> utf8_len(#[trigger] ws[i]) <= usize::MAX,
    ensures
        forall|i: int|
            0 <= i < scan_lines(ws, max).0.len() ==> (#[trigger] scan_lines(ws, max).0[i]).contains(' ')
                ==> utf8_len(scan_lines(ws, max).0[i]) <= max,
        scan_lines(ws, max).1.contains(' ') ==> utf8_len(scan_lines(ws, max).1) <= max,
        utf8_len(scan_lines(ws, max).1) <= usize::MAX,
    decreases ws.len(),
{
    if ws.len() > 0 {
        let prev = ws.drop_last();
        lemma_scan_lines_fit(prev, max);
        let (lines, cur) = scan_lines(prev, max);
        let w = ws.last();
        assert(!w.contains(' '));
        if cur.len() > 0 && fits_after(cur, w, max) {
            lemma_utf8_len_concat(cur + seq![' '], w);
            lemma_utf8_len_concat(cur, seq![' ']);
            lemma_utf8_len_space();
            assert((cur + seq![' '] + w).contains(' ')) by {
                assert((cur + seq![' '] + w)[cur.len() as int] == ' ');
            }
        }
    }
}

/// Every line of several words fits in `max` bytes; only a single word
/// longer than a line may exceed it.
pub proof fn lemma_wrapped_lines_fit(s: Seq<char>, max: usize)
    requires
        forall|i: int| 0 <= i < split_words(s).len() ==> utf8_len(#[trigger] split_words(s)[i]) <= usize::MAX,
    ensures
        forall|i: int|
            0 <= i < wrapped_lines(s, max).len() ==> (#[trigger] wrapped_lines(s, max)[i]).contains(' ')
                ==> utf8_len(wrapped_lines(s, max)[i]) <= max,
{
    lemma_split_words_are_words(s);
    lemma_scan_lines_fit(split_words(s), max);
}

} // verus!
