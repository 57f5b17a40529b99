use vstd::prelude::*;
use crate::severity::{Severity, level_tag};

verus! {

/// The line written for one record: `[<timestamp>] [<TAG>] <message>\n`.
pub open spec fn line_text(timestamp: Seq<char>, severity: Severity, message: Seq<char>) -> Seq<char> {
    seq!['['] + timestamp + seq![']', ' ', '['] + level_tag(severity) + seq![']', ' '] + message + seq!['\n']
}

/// Renders one record as a log line; the message is taken verbatim.
pub fn format_line(severity: Severity, message: &str, timestamp: &str) -> (r: String)
    ensures
        r@ == line_text(timestamp@, severity, message@),
{
    proof {
        reveal_strlit("[");
        reveal_strlit("] [");
        reveal_strlit("] ");
        reveal_strlit("\n");
    }
    let mut r = String::from_str("[");
    r.append(timestamp);
    r.append("] [");
    let tag = severity.tag();
    r.append(tag.as_str());
    r.append("] ");
    r.append(message);
    r.append("\n");
    assert(r@ =~= line_text(timestamp@, severity, message@));
    r
}

} // verus!

verus! {

/// Whether `c` does not occur in `s`.
pub open spec fn lacks(s: Seq<char>, c: char) -> bool {
    forall|i: int| 0 <= i < s.len() ==> s[i] != c
}

/// `line` is the rendering of `(timestamp, severity, message)`, with a timestamp
/// free of `]` and a message free of line breaks.
pub open spec fn renders(line: Seq<char>, timestamp: Seq<char>, severity: Severity, message: Seq<char>) -> bool {
    &&& lacks(timestamp, ']')
    &&& lacks(message, '\n')
    &&& line == line_text(timestamp, severity, message)
}

/// What a line reads back as: its severity and message, if it is a rendering.
pub open spec fn parsed(line: Seq<char>) -> Option<(Severity, Seq<char>)> {
    if exists|t: Seq<char>, s: Severity, m: Seq<char>| renders(line, t, s, m) {
        let (t, s, m) = choose|t: Seq<char>, s: Severity, m: Seq<char>| renders(line, t, s, m);
        Some((s, m))
    } else {
        None
    }
}

proof fn lemma_tag_shape(s: Severity)
    ensures
        4 <= level_tag(s).len() <= 7,
        lacks(level_tag(s), ']'),
{
}

proof fn lemma_line_shape(line: Seq<char>, t: Seq<char>, s: Severity, m: Seq<char>)
    requires
        renders(line, t, s, m),
    ensures
        (line.len() as int) == (t.len() as int) + (level_tag(s).len() as int) + m.len() + 7,
        line[0] == '[',
        forall|i: int| 1 <= i < 1 + (t.len() as int) ==> line[i] != ']',
        line.subrange(1, 1 + (t.len() as int)) == t,
        line[1 + (t.len() as int)] == ']',
        line[2 + (t.len() as int)] == ' ',
        line[3 + (t.len() as int)] == '[',
        forall|i: int| 4 + (t.len() as int) <= i < 4 + (t.len() as int) + (level_tag(s).len() as int) ==> line[i] != ']',
        line.subrange(4 + (t.len() as int), 4 + (t.len() as int) + (level_tag(s).len() as int)) == level_tag(s),
        line[4 + (t.len() as int) + (level_tag(s).len() as int)] == ']',
        line[5 + (t.len() as int) + (level_tag(s).len() as int)] == ' ',
        line.subrange(6 + (t.len() as int) + (level_tag(s).len() as int), (line.len() as int) - 1) == m,
        line[(line.len() as int) - 1] == '\n',
{
    lemma_tag_shape(s);
    let g = level_tag(s);
    let a = 4 + (t.len() as int);
    let b = a + (g.len() as int);
    assert(line.subrange(1, 1 + (t.len() as int)) =~= t);
    assert(line.subrange(a, b) =~= g);
    assert(line.subrange(b + 2, (line.len() as int) - 1) =~= m);
    assert forall|i: int| 1 <= i < 1 + (t.len() as int) implies line[i] != ']' by {
        assert(line[i] == t[i - 1]);
    }
    assert forall|i: int| a <= i < b implies line[i] != ']' by {
        assert(line[i] == g[i - a]);
    }
}

proof fn lemma_tag_injective(s1: Severity, s2: Severity)
    requires
        level_tag(s1) == level_tag(s2),
    ensures
        s1 == s2,
{
    if s1 != s2 {
        assert((level_tag(s1).len() as int) != (level_tag(s2).len() as int) || level_tag(s1)[0] != level_tag(s2)[0]);
    }
}

proof fn lemma_renders_unique(line: Seq<char>, t1: Seq<char>, s1: Severity, m1: Seq<char>, t2: Seq<char>, s2: Severity, m2: Seq<char>)
    requires
        renders(line, t1, s1, m1),
        renders(line, t2, s2, m2),
    ensures
        t1 == t2,
        s1 == s2,
        m1 == m2,
{
    lemma_line_shape(line, t1, s1, m1);
    lemma_line_shape(line, t2, s2, m2);
    if (t1.len() as int) < (t2.len() as int) {
        assert(line[1 + (t1.len() as int)] != ']');
    }
    if (t2.len() as int) < (t1.len() as int) {
        assert(line[1 + (t2.len() as int)] != ']');
    }
    let a = 4 + (t1.len() as int);
    if (level_tag(s1).len() as int) < (level_tag(s2).len() as int) {
        assert(line[a + (level_tag(s1).len() as int)] != ']');
    }
    if (level_tag(s2).len() as int) < (level_tag(s1).len() as int) {
        assert(line[a + (level_tag(s2).len() as int)] != ']');
    }
    lemma_tag_injective(s1, s2);
}

/// Formatting a record and reading the line back gives the severity and the
/// message again, for a timestamp free of `]` and a message free of line breaks.
pub proof fn lemma_round_trip(timestamp: Seq<char>, severity: Severity, message: Seq<char>)
    requires
        lacks(timestamp, ']'),
        lacks(message, '\n'),
    ensures
        parsed(line_text(timestamp, severity, message)) == Some((severity, message)),
{
    let line = line_text(timestamp, severity, message);
    assert(renders(line, timestamp, severity, message));
    let (t, s, m) = choose|t: Seq<char>, s: Severity, m: Seq<char>| renders(line, t, s, m);
    lemma_renders_unique(line, t, s, m, timestamp, severity, message);
}

/// The first position at or after `from` that holds `c`, or the length.
fn find_char(s: &str, c: char, from: usize) -> (r: usize)
    requires
        from <= s@.len(),
    ensures
        from <= r <= s@.len(),
        forall|j: int| from <= j < r ==> s@[j] != c,
        r < s@.len() ==> s@[r as int] == c,
{
    let n = s.unicode_len();
    let mut i = from;
    while i < n
        invariant
            n == s@.len(),
            from <= i <= n,
            forall|j: int| from <= j < i ==> s@[j] != c,
        decreases n - i,
    {
        if s.get_char(i) == c {
            return i;
        }
        i = i + 1;
    }
    i
}

/// Where the parts of any rendering of `line` start and end, as far as the
/// search for the first `]` after the opening bracket can tell.
proof fn lemma_stamp_end(line: Seq<char>, k: int)
    requires
        1 <= k <= line.len(),
        forall|j: int| 1 <= j < k ==> line[j] != ']',
        k < line.len() ==> line[k] == ']',
    ensures
        forall|t: Seq<char>, s: Severity, m: Seq<char>| #[trigger] renders(line, t, s, m) ==> {
            &&& 7 <= line.len()
            &&& line[0] == '['
            &&& line[line.len() - 1] == '\n'
            &&& k == 1 + t.len()
            &&& k < line.len() - 3
            &&& line[k + 1] == ' '
            &&& line[k + 2] == '['
        },
{
    assert forall|t: Seq<char>, s: Severity, m: Seq<char>| #[trigger] renders(line, t, s, m) implies {
        &&& 7 <= line.len()
        &&& line[0] == '['
        &&& line[line.len() - 1] == '\n'
        &&& k == 1 + t.len()
        &&& k < line.len() - 3
        &&& line[k + 1] == ' '
        &&& line[k + 2] == '['
    } by {
        lemma_line_shape(line, t, s, m);
        lemma_tag_shape(s);
        if k < 1 + t.len() {
            assert(line[k] != ']');
        }
        if k > 1 + t.len() {
            assert(line[1 + (t.len() as int)] != ']');
        }
    }
}

/// The same for the search for the `]` that closes the tag.
proof fn lemma_tag_end(line: Seq<char>, k: int, e: int)
    requires
        k + 3 <= e <= line.len(),
        forall|j: int| k + 3 <= j < e ==> line[j] != ']',
        e < line.len() ==> line[e] == ']',
        forall|t: Seq<char>, s: Severity, m: Seq<char>| #[trigger] renders(line, t, s, m) ==> k == 1 + t.len(),
    ensures
        forall|t: Seq<char>, s: Severity, m: Seq<char>| #[trigger] renders(line, t, s, m) ==> {
            &&& e == k + 3 + level_tag(s).len()
            &&& e < line.len() - 2
            &&& line[e + 1] == ' '
            &&& line.subrange(k + 3, e) == level_tag(s)
            &&& line.subrange(e + 2, line.len() - 1) == m
        },
{
    assert forall|t: Seq<char>, s: Severity, m: Seq<char>| #[trigger] renders(line, t, s, m) implies {
        &&& e == k + 3 + level_tag(s).len()
        &&& e < line.len() - 2
        &&& line[e + 1] == ' '
        &&& line.subrange(k + 3, e) == level_tag(s)
        &&& line.subrange(e + 2, line.len() - 1) == m
    } by {
        lemma_line_shape(line, t, s, m);
        lemma_tag_shape(s);
        let b = k + 3 + level_tag(s).len();
        if e < b {
            assert(line[e] != ']');
        }
        if e > b {
            assert(line[b] != ']');
        }
    }
}

/// Reads a log line back into its severity and message.
#[verifier::rlimit(30)]
pub fn parse_line(line: &str) -> (r: Option<(Severity, String)>)
    ensures
        match r {
            Some((s, m)) => parsed(line@) == Some((s, m@)),
            None => parsed(line@) is None,
        },
{
    let n = line.unicode_len();
    let k = find_char(line, ']', if n == 0 { 0 } else { 1 });
    if n < 7 {
        proof {
            assert forall|t: Seq<char>, s: Severity, m: Seq<char>| !renders(line@, t, s, m) by {
                if renders(line@, t, s, m) {
                    lemma_line_shape(line@, t, s, m);
                }
            }
        }
        return None;
    }
    proof {
        lemma_stamp_end(line@, k as int);
    }
    if line.get_char(0) != '[' || line.get_char(n - 1) != '\n' {
        return None;
    }
    if k >= n - 3 || line.get_char(k + 1) != ' ' || line.get_char(k + 2) != '[' {
        return None;
    }
    let e = find_char(line, ']', k + 3);
    proof {
        lemma_tag_end(line@, k as int, e as int);
    }
    if e >= n - 2 || line.get_char(e + 1) != ' ' {
        return None;
    }
    let tag = line.substring_char(k + 3, e);
    let sev = match Severity::from_tag(tag) {
        Some(s) => s,
        None => {
            return None;
        },
    };
    let msg = line.substring_char(e + 2, n - 1);
    let p = find_char(msg, '\n', 0);
    if p < msg.unicode_len() {
        return None;
    }
    let ghost t = line@.subrange(1, k as int);
    proof {
        assert(line@ =~= line_text(t, sev, msg@));
        assert(renders(line@, t, sev, msg@));
        let (t2, s2, m2) = choose|t: Seq<char>, s: Severity, m: Seq<char>| renders(line@, t, s, m);
        lemma_renders_unique(line@, t, sev, msg@, t2, s2, m2);
    }
    Some((sev, String::from_str(msg)))
}

} // verus!
