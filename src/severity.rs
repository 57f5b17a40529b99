use vstd::prelude::*;

verus! {

/// One of the four levels accepted by the endpoint, in their fixed order.
#[derive(Clone, Copy, Debug, PartialEq, Eq, Structural)]
pub enum Severity {
    Debug,
    Info,
    Warning,
    Error,
}

/// The field name under which a severity is submitted.
pub open spec fn level_name(s: Severity) -> Seq<char> {
    match s {
        Severity::Debug => seq!['d', 'e', 'b', 'u', 'g'],
        Severity::Info => seq!['i', 'n', 'f', 'o'],
        Severity::Warning => seq!['w', 'a', 'r', 'n', 'i', 'n', 'g'],
        Severity::Error => seq!['e', 'r', 'r', 'o', 'r'],
    }
}

/// The tag written into a log line: the field name in upper case.
pub open spec fn level_tag(s: Severity) -> Seq<char> {
    match s {
        Severity::Debug => seq!['D', 'E', 'B', 'U', 'G'],
        Severity::Info => seq!['I', 'N', 'F', 'O'],
        Severity::Warning => seq!['W', 'A', 'R', 'N', 'I', 'N', 'G'],
        Severity::Error => seq!['E', 'R', 'R', 'O', 'R'],
    }
}

/// The levels in the order in which a request is processed.
pub open spec fn level_order() -> Seq<Severity> {
    seq![Severity::Debug, Severity::Info, Severity::Warning, Severity::Error]
}

/// The position of a level in processing order.
pub open spec fn rank(s: Severity) -> int {
    match s {
        Severity::Debug => 0,
        Severity::Info => 1,
        Severity::Warning => 2,
        Severity::Error => 3,
    }
}

impl Severity {
    /// The field name of this level (`"debug"`, ...).
    pub fn name(&self) -> (r: String)
        ensures
            r@ == level_name(*self),
    {
        let s = match self {
            Severity::Debug => "debug",
            Severity::Info => "info",
            Severity::Warning => "warning",
            Severity::Error => "error",
        };
        proof {
            reveal_strlit("debug");
            reveal_strlit("info");
            reveal_strlit("warning");
            reveal_strlit("error");
        }
        let r = String::from_str(s);
        assert(r@ =~= level_name(*self));
        r
    }

    /// The upper-case tag of this level (`"DEBUG"`, ...).
    pub fn tag(&self) -> (r: String)
        ensures
            r@ == level_tag(*self),
    {
        let s = match self {
            Severity::Debug => "DEBUG",
            Severity::Info => "INFO",
            Severity::Warning => "WARNING",
            Severity::Error => "ERROR",
        };
        proof {
            reveal_strlit("DEBUG");
            reveal_strlit("INFO");
            reveal_strlit("WARNING");
            reveal_strlit("ERROR");
        }
        let r = String::from_str(s);
        assert(r@ =~= level_tag(*self));
        r
    }

    /// The level whose upper-case tag is `tag`, if any.
    pub fn from_tag(tag: &str) -> (r: Option<Severity>)
        ensures
            match r {
                Some(s) => level_tag(s) == tag@,
                None => forall|s: Severity| level_tag(s) != tag@,
            },
    {
        let levels = all_levels();
        let mut i: usize = 0;
        while i < levels.len()
            invariant
                levels@ == level_order(),
                0 <= i <= levels.len(),
                forall|j: int| 0 <= j < i ==> level_tag(#[trigger] level_order()[j]) != tag@,
            decreases levels.len() - i,
        {
            let t = levels[i].tag();
            if t.as_str().unicode_len() == tag.unicode_len() && same_chars(t.as_str(), tag) {
                return Some(levels[i]);
            }
            i = i + 1;
        }
        proof {
            assert forall|s: Severity| level_tag(s) != tag@ by {
                let j: int = match s {
                    Severity::Debug => 0,
                    Severity::Info => 1,
                    Severity::Warning => 2,
                    Severity::Error => 3,
                };
                assert(level_order()[j] == s);
            }
        }
        None
    }
}

/// The four levels, in processing order.
pub fn all_levels() -> (r: Vec<Severity>)
    ensures
        r@ == level_order(),
{
    let r = vec![Severity::Debug, Severity::Info, Severity::Warning, Severity::Error];
    assert(r@ =~= level_order());
    r
}

/// Whether two strings hold the same characters.
pub fn same_chars(a: &str, b: &str) -> (r: bool)
    ensures
        r == (a@ == b@),
{
    let n = a.unicode_len();
    if n != b.unicode_len() {
        return false;
    }
    let mut i: usize = 0;
    while i < n
        invariant
            n == a@.len(),
            n == b@.len(),
            0 <= i <= n,
            a@.subrange(0, i as int) =~= b@.subrange(0, i as int),
        decreases n - i,
    {
        if a.get_char(i) != b.get_char(i) {
            return false;
        }
        assert(a@.subrange(0, i + 1) =~= a@.subrange(0, i as int).push(a@[i as int]));
        assert(b@.subrange(0, i + 1) =~= b@.subrange(0, i as int).push(b@[i as int]));
        i = i + 1;
    }
    assert(a@ =~= a@.subrange(0, n as int));
    assert(b@ =~= b@.subrange(0, n as int));
    true
}

} // verus!
