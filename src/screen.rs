use vstd::prelude::*;
use vstd::string::StrSliceExecFns;

verus! {

/// A display, by the handle that the display enumeration gives it.
pub type DisplayHandle = u64;

/// Which displays an operation acts on.
#[derive(Clone, Debug)]
pub enum Screen {
    All,
    Main,
    /// The display at this position in the enumeration.
    Index(usize),
    /// These displays, as given.
    NSScreen(Vec<DisplayHandle>),
}

impl Screen {
    /// The displays selected, given the enumeration and the primary display.
    pub open spec fn resolved(&self, screens: Seq<DisplayHandle>, main: Option<DisplayHandle>) -> Seq<
        DisplayHandle,
    > {
        match self {
            Screen::All => screens,
            Screen::Main => match main {
                Some(m) => seq![m],
                None => seq![],
            },
            Screen::Index(i) => if *i < screens.len() {
                seq![screens[*i as int]]
            } else {
                seq![]
            },
            Screen::NSScreen(v) => v@,
        }
    }

    /// Resolves the selection against the displays now enumerated (`screens`,
    /// in enumeration order) and the primary display. Never fails: a selection
    /// that matches nothing gives no displays.
    pub fn nsscreens(&self, screens: &Vec<DisplayHandle>, main: Option<DisplayHandle>) -> (r: Vec<
        DisplayHandle,
    >)
        ensures
            r@ == self.resolved(screens@, main),
    {
        match self {
            Screen::All => screens.clone(),
            Screen::Main => match main {
                Some(m) => vec![m],
                None => Vec::new(),
            },
            Screen::Index(i) => if *i < screens.len() {
                vec![screens[*i]]
            } else {
                Vec::new()
            },
            Screen::NSScreen(v) => v.clone(),
        }
    }
}

/// A position past the end of the enumeration selects no display, without failing.
pub proof fn lemma_index_out_of_range(n: usize, screens: Seq<DisplayHandle>, main: Option<DisplayHandle>)
    requires
        n >= screens.len(),
    ensures
        Screen::Index(n).resolved(screens, main) == Seq::<DisplayHandle>::empty(),
{
}

/// The characters that `str::trim` keeps.
pub uninterp spec fn trimmed(s: Seq<char>) -> Seq<char>;

/// Relies on `str::trim`: removes leading and trailing white space, a
/// function of the characters alone.
#[verifier::external_body]
fn trim(s: &str) -> (r: &str)
    ensures
        r@ == trimmed(s@),
{
    s.trim()
}

pub open spec fn is_decimal_digit(c: char) -> bool {
    '0' <= c && c <= '9'
}

/// The number written by a run of decimal digits.
pub open spec fn decimal_value(s: Seq<char>) -> nat
    decreases s.len(),
{
    if s.len() == 0 {
        0
    } else {
        decimal_value(s.drop_last()) * 10 + (s.last() as nat - '0' as nat) as nat
    }
}

/// The digits of an unsigned number: the text without one leading `+`.
pub open spec fn unsigned_digits(s: Seq<char>) -> Seq<char> {
    if s.len() > 0 && s[0] == '+' {
        s.drop_first()
    } else {
        s
    }
}

/// What reading the text as a `usize` gives: an optional `+`, at least one
/// decimal digit and nothing else, and a value that fits.
pub open spec fn parsed_index(s: Seq<char>) -> Option<usize> {
    let d = unsigned_digits(s);
    if d.len() > 0 && (forall|i: int| 0 <= i < d.len() ==> is_decimal_digit(#[trigger] d[i]))
        && decimal_value(d) <= usize::MAX {
        Some(decimal_value(d) as usize)
    } else {
        None
    }
}

/// The selection that a word names: `all`, `main` (after trimming), or the
/// position of one of the `screen_count` displays.
pub open spec fn selector_named(trimmed_text: Seq<char>, text: Seq<char>, screen_count: nat) -> Option<Screen> {
    if trimmed_text == "all"@ {
        Some(Screen::All)
    } else if trimmed_text == "main"@ {
        Some(Screen::Main)
    } else {
        match parsed_index(text) {
            Some(i) => if i < screen_count {
                Some(Screen::Index(i))
            } else {
                None
            },
            None => None,
        }
    }
}

pub(crate) fn same_text(a: &str, b: &str) -> (r: bool)
    ensures
        r == (a@ == b@),
{
    let n = a.unicode_len();
    if n != b.unicode_len() {
        return false;
    }
    let mut i: usize = 0;
    while i < n
        invariant
            n == a@.len() == b@.len(),
            i <= n,
            a@.subrange(0, i as int) == b@.subrange(0, i as int),
        decreases n - i,
    {
        if a.get_char(i) != b.get_char(i) {
            assert(a@[i as int] != b@[i as int]);
            return false;
        }
        assert(a@.subrange(0, i + 1) == a@.subrange(0, i as int).push(a@[i as int]));
        assert(b@.subrange(0, i + 1) == b@.subrange(0, i as int).push(b@[i as int]));
        i = i + 1;
    }
    assert(a@ == a@.subrange(0, n as int));
    assert(b@ == b@.subrange(0, n as int));
    true
}

/// Reads `text` as a `usize` the way `str::parse` does.
pub fn parse_index(text: &str) -> (r: Option<usize>)
    ensures
        r == parsed_index(text@),
{
    let n = text.unicode_len();
    let start: usize = if n > 0 && text.get_char(0) == '+' { 1 } else { 0 };
    let ghost d = unsigned_digits(text@);
    assert(d == text@.subrange(start as int, n as int));
    if start == n {
        return None;
    }
    let mut value: usize = 0;
    let mut overflow = false;
    let mut i: usize = start;
    while i < n
        invariant
            n == text@.len(),
            start <= i <= n,
            d == text@.subrange(start as int, n as int),
            d == unsigned_digits(text@),
            forall|j: int| 0 <= j < i - start ==> is_decimal_digit(#[trigger] d[j]),
            !overflow ==> value as nat == decimal_value(d.subrange(0, i - start)),
            overflow ==> decimal_value(d.subrange(0, i - start)) > usize::MAX,
        decreases n - i,
    {
        let c = text.get_char(i);
        let ghost k = i - start;
        assert(c == d[k]);
        if !('0' <= c && c <= '9') {
            assert(!is_decimal_digit(d[k]));
            assert(!(forall|j: int| 0 <= j < d.len() ==> is_decimal_digit(#[trigger] d[j])));
            return None;
        }
        let digit = (c as u32 - '0' as u32) as usize;
        let ghost prev = decimal_value(d.subrange(0, k));
        assert(d.subrange(0, k + 1).drop_last() == d.subrange(0, k));
        assert(decimal_value(d.subrange(0, k + 1)) == prev * 10 + digit);
        if !overflow {
            if value > (usize::MAX - digit) / 10 {
                overflow = true;
                assert(prev * 10 + digit > usize::MAX) by (nonlinear_arith)
                    requires
                        prev == value,
                        value > (usize::MAX - digit) / 10,
                        digit <= 9,
                ;
            } else {
                assert(value * 10 + digit <= usize::MAX) by (nonlinear_arith)
                    requires
                        value <= (usize::MAX - digit) / 10,
                        digit <= 9,
                ;
                value = value * 10 + digit;
            }
        } else {
            assert(prev * 10 + digit > usize::MAX) by (nonlinear_arith)
                requires
                    prev > usize::MAX,
            ;
        }
        i = i + 1;
    }
    assert(d.subrange(0, n - start) == d);
    if overflow {
        None
    } else {
        Some(value)
    }
}

/// The selection that `trimmed_text` (the trimmed form of `text`) names, among
/// `screen_count` displays.
pub fn selector_from_parts(trimmed_text: &str, text: &str, screen_count: usize) -> (r: Option<Screen>)
    ensures
        r == selector_named(trimmed_text@, text@, screen_count as nat),
{
    proof {
        reveal_strlit("all");
        reveal_strlit("main");
    }
    if same_text(trimmed_text, "all") {
        Some(Screen::All)
    } else if same_text(trimmed_text, "main") {
        Some(Screen::Main)
    } else {
        match parse_index(text) {
            Some(i) => if i < screen_count {
                Some(Screen::Index(i))
            } else {
                None
            },
            None => None,
        }
    }
}

/// The selection that a command-line word names, given how many displays
/// there are: `all`, `main`, or a display's position.
pub fn screen_from_str(value: &str, screen_count: usize) -> (r: Option<Screen>)
    ensures
        r == selector_named(trimmed(value@), value@, screen_count as nat),
{
    selector_from_parts(trim(value), value, screen_count)
}

} // verus!
