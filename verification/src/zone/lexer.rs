use vstd::prelude::*;

verus! {

/// Whether a character separates the words of a zone file line: a space, a
/// tab or a carriage return.
pub open spec fn is_blank(c: char) -> bool {
    c == ' ' || c == '\t' || c == '\r'
}

/// The finished words followed by the current word, if it is not empty.
pub open spec fn flush(ws: Seq<Seq<char>>, cur: Seq<char>) -> Seq<Seq<char>> {
    if cur.len() > 0 {
        ws.push(cur)
    } else {
        ws
    }
}

/// Scanning a line from the start: the words finished so far, the word being
/// read, and whether a comment (`;`) has begun, after which nothing counts.
pub open spec fn scan_words(s: Seq<char>) -> (Seq<Seq<char>>, Seq<char>, bool)
    decreases s.len(),
{
    if s.len() == 0 {
        (Seq::empty(), Seq::empty(), false)
    } else {
        let (ws, cur, done) = scan_words(s.drop_last());
        let c = s.last();
        if done {
            (ws, cur, done)
        } else if c == ';' {
            (flush(ws, cur), Seq::empty(), true)
        } else if is_blank(c) {
            (flush(ws, cur), Seq::empty(), false)
        } else {
            (ws, cur.push(c), false)
        }
    }
}

/// The words of a line: the runs of characters other than blanks before any
/// comment.
pub open spec fn line_words(s: Seq<char>) -> Seq<Seq<char>> {
    flush(scan_words(s).0, scan_words(s).1)
}

/// The texts of the strings.
pub open spec fn texts(v: Seq<String>) -> Seq<Seq<char>> {
    v.map_values(|w: String| w@)
}

/// Splits a line into its words (see [`line_words`]).
pub fn split_words(line: &str) -> (r: Vec<String>)
    ensures
        texts(r@) == line_words(line@),
{
    let n = line.unicode_len();
    let mut words: Vec<String> = Vec::new();
    let mut cur = String::new();
    let mut done = false;
    let mut i: usize = 0;
    assert(line@.take(0) =~= Seq::<char>::empty());
    assert(texts(words@) =~= Seq::<Seq<char>>::empty());
    while i < n
        invariant
            n == line@.len(),
            i <= n,
            scan_words(line@.take(i as int)) == (texts(words@), cur@, done),
        decreases n - i,
    {
        let c = line.get_char(i);
        let ghost t = line@.take(i + 1);
        assert(t.drop_last() =~= line@.take(i as int));
        assert(t.last() == c);
        if !done {
            if c == ';' || c == ' ' || c == '\t' || c == '\r' {
                if cur.unicode_len() > 0 {
                    let w = cur;
                    words.push(w);
                    cur = String::new();
                } else {
                    cur = String::new();
                }
                assert(cur@ =~= Seq::<char>::empty());
                if c == ';' {
                    done = true;
                }
            } else {
                crate::text::push_char(&mut cur, c);
            }
        }
        proof {
            let (ws, cw, d) = scan_words(line@.take(i as int));
            if !d && (c == ';' || is_blank(c)) {
                assert(texts(words@) =~= flush(ws, cw));
            }
        }
        i = i + 1;
    }
    assert(line@.take(i as int) =~= line@);
    if cur.unicode_len() > 0 {
        words.push(cur);
    }
    assert(texts(words@) =~= line_words(line@));
    words
}

} // verus!
