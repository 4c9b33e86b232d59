//! Decisions of the screen capture: which window to capture, and where a
//! screenshot is saved.

use vstd::prelude::*;
use crate::text::{
    contains, lowercase, push_seq, push_zero_padded, str_contains, to_lowercase, zero_padded,
    zero_padded_value,
};

verus! {

/// The window titles as text: a title that could not be read is `None`.
pub open spec fn title_views(titles: Seq<Option<String>>) -> Seq<Option<Seq<char>>> {
    titles.map_values(
        |t: Option<String>|
            match t {
                Some(s) => Some(s@),
                None => None,
            },
    )
}

/// Whether a window title matches: it contains `substring`, both taken in
/// lower case.
pub open spec fn title_matches(title: Option<Seq<char>>, substring: Seq<char>) -> bool {
    match title {
        Some(t) => contains(lowercase(t), lowercase(substring)),
        None => false,
    }
}

/// The indices of the matching titles, in order.
pub open spec fn spec_window_matches(titles: Seq<Option<Seq<char>>>, substring: Seq<char>) -> Seq<
    usize,
>
    decreases titles.len(),
{
    if titles.len() == 0 {
        Seq::empty()
    } else {
        let rest = spec_window_matches(titles.drop_last(), substring);
        if title_matches(titles.last(), substring) {
            rest.push((titles.len() - 1) as usize)
        } else {
            rest
        }
    }
}

/// The windows whose title contains `substring`, ignoring case, in the
/// order given; the first is the one captured.
pub fn window_matches(titles: &Vec<Option<String>>, substring: &str) -> (m: Vec<usize>)
    ensures
        m@ == spec_window_matches(title_views(titles@), substring@),
{
    let ghost tv = title_views(titles@);
    let sub_lower = to_lowercase(substring);
    let mut m: Vec<usize> = Vec::new();
    let n = titles.len();
    let mut i: usize = 0;
    while i < n
        invariant
            0 <= i <= n == titles@.len() == tv.len(),
            tv == title_views(titles@),
            sub_lower@ == lowercase(substring@),
            m@ == spec_window_matches(tv.take(i as int), substring@),
        decreases n - i,
    {
        assert(tv.take(i + 1).drop_last() == tv.take(i as int));
        assert(tv.take(i + 1).last() == tv[i as int]);
        let hit = match &titles[i] {
            Some(t) => {
                let t_lower = to_lowercase(t.as_str());
                str_contains(t_lower.as_str(), sub_lower.as_str())
            },
            None => false,
        };
        if hit {
            m.push(i);
        }
        i = i + 1;
    }
    assert(tv.take(n as int) == tv);
    m
}

/// The name of a run's screenshot directory: the run id when one is set,
/// else the time stamp followed by `_run`.
pub open spec fn spec_run_dir_name(run_id: Option<Seq<char>>, timestamp: Seq<char>) -> Seq<char> {
    match run_id {
        Some(id) => id,
        None => timestamp + "_run"@,
    }
}

/// The name of the screenshot directory of this run.
pub fn run_dir_name(run_id: Option<&str>, timestamp: &str) -> (name: String)
    ensures
        name@ == spec_run_dir_name(
            match run_id {
                Some(id) => Some(id@),
                None => None,
            },
            timestamp@,
        ),
{
    let mut name = String::new();
    match run_id {
        Some(id) => push_seq(&mut name, id),
        None => {
            push_seq(&mut name, timestamp);
            push_seq(&mut name, "_run");
        },
    }
    name
}

/// The file name of screenshot number `counter`: flat screenshots are
/// named by their label alone; in a run directory the zero-padded number
/// comes first. Without a label the number alone names the file.
pub open spec fn spec_screenshot_file_name(label: Seq<char>, counter: u32, flat: bool) -> Seq<char> {
    let number = zero_padded(counter as nat, 3);
    if label.len() == 0 {
        number + ".png"@
    } else if flat {
        label + ".png"@
    } else {
        number + "_"@ + label + ".png"@
    }
}

/// The file name of screenshot number `counter` with `label`.
pub fn screenshot_file_name(label: &str, counter: u32, flat: bool) -> (name: String)
    ensures
        name@ == spec_screenshot_file_name(label@, counter, flat),
{
    let mut name = String::new();
    if label.is_empty() {
        push_zero_padded(&mut name, counter as u64, 3);
    } else if flat {
        push_seq(&mut name, label);
    } else {
        push_zero_padded(&mut name, counter as u64, 3);
        push_seq(&mut name, "_");
        push_seq(&mut name, label);
    }
    push_seq(&mut name, ".png");
    name
}

/// Window matching ignores case: substrings with the same lower-case form
/// select the same windows.
pub proof fn window_matching_ignores_case(
    titles: Seq<Option<Seq<char>>>,
    a: Seq<char>,
    b: Seq<char>,
)
    requires
        lowercase(a) == lowercase(b),
    ensures
        spec_window_matches(titles, a) == spec_window_matches(titles, b),
    decreases titles.len(),
{
    if titles.len() > 0 {
        window_matching_ignores_case(titles.drop_last(), a, b);
    }
}

/// The windows selected are exactly the matching ones, in increasing order.
pub proof fn window_matches_are_the_matching_windows(titles: Seq<Option<Seq<char>>>, sub: Seq<char>)
    requires
        titles.len() <= usize::MAX,
    ensures
        forall|k: int|
            0 <= k < spec_window_matches(titles, sub).len() ==> {
                let i = #[trigger] spec_window_matches(titles, sub)[k];
                0 <= i < titles.len() && title_matches(titles[i as int], sub)
            },
        forall|k: int, l: int|
            0 <= k < l < spec_window_matches(titles, sub).len() ==> spec_window_matches(
                titles,
                sub,
            )[k] < spec_window_matches(titles, sub)[l],
        forall|i: int|
            0 <= i < titles.len() && title_matches(#[trigger] titles[i], sub) ==> spec_window_matches(
                titles,
                sub,
            ).contains(i as usize),
    decreases titles.len(),
{
    if titles.len() > 0 {
        let rest = titles.drop_last();
        window_matches_are_the_matching_windows(rest, sub);
        let m0 = spec_window_matches(rest, sub);
        let m = spec_window_matches(titles, sub);
        assert forall|k: int| 0 <= k < m.len() implies {
            let i = #[trigger] m[k];
            0 <= i < titles.len() && title_matches(titles[i as int], sub)
        } by {
            if k < m0.len() {
                assert(m[k] == m0[k]);
                assert(titles[m0[k] as int] == rest[m0[k] as int]);
            } else {
                assert(m[k] == (titles.len() - 1) as usize);
            }
        }
        assert forall|k: int, l: int| 0 <= k < l < m.len() implies m[k] < m[l] by {
            if l < m0.len() {
                assert(m[k] == m0[k] && m[l] == m0[l]);
            } else {
                assert(m[k] == m0[k]);
                assert(m[l] == (titles.len() - 1) as usize);
            }
        }
        assert forall|i: int| 0 <= i < titles.len() && title_matches(#[trigger] titles[i], sub)
            implies m.contains(i as usize) by {
            if i < titles.len() - 1 {
                assert(rest[i] == titles[i]);
                let k = choose|k: int| 0 <= k < m0.len() && m0[k] == i as usize;
                assert(m[k] == m0[k]);
            } else {
                assert(m[m.len() - 1] == i as usize);
            }
        }
    }
}

proof fn lemma_cancel_suffix(a: Seq<char>, b: Seq<char>, t: Seq<char>)
    requires
        a + t == b + t,
    ensures
        a == b,
{
    assert((a + t).len() == a.len() + t.len());
    assert((b + t).len() == b.len() + t.len());
    assert(a.len() == b.len());
    assert(a == (a + t).subrange(0, a.len() as int));
    assert(b == (b + t).subrange(0, b.len() as int));
}

/// Screenshots in a run directory never overwrite each other: with the
/// same label, different counters give different file names.
pub proof fn run_screenshot_names_distinct(label: Seq<char>, c1: u32, c2: u32)
    requires
        c1 != c2,
    ensures
        spec_screenshot_file_name(label, c1, false) != spec_screenshot_file_name(label, c2, false),
{
    let n1 = zero_padded(c1 as nat, 3);
    let n2 = zero_padded(c2 as nat, 3);
    zero_padded_value(c1 as nat, 3);
    zero_padded_value(c2 as nat, 3);
    if spec_screenshot_file_name(label, c1, false) == spec_screenshot_file_name(label, c2, false) {
        if label.len() == 0 {
            lemma_cancel_suffix(n1, n2, ".png"@);
        } else {
            let t = "_"@ + label + ".png"@;
            assert(n1 + "_"@ + label + ".png"@ == n1 + t);
            assert(n2 + "_"@ + label + ".png"@ == n2 + t);
            lemma_cancel_suffix(n1, n2, t);
        }
    }
}

/// A window title matches exactly when the lower-cased substring occurs
/// somewhere in the lower-cased title, at any position: after some text
/// and before some more.
pub proof fn title_matches_anywhere(title: Seq<char>, substring: Seq<char>)
    ensures
        title_matches(Some(title), substring) <==> exists|before: Seq<char>, after: Seq<char>|
            lowercase(title) == before + lowercase(substring) + after,
{
    let t = lowercase(title);
    let n = lowercase(substring);
    if title_matches(Some(title), substring) {
        let i = choose|i: int| 0 <= i && i + n.len() <= t.len() && #[trigger] t.subrange(i, i + n.len()) == n;
        let before = t.subrange(0, i);
        let after = t.subrange(i + n.len(), t.len() as int);
        assert(t == before + n + after);
    }
    if exists|before: Seq<char>, after: Seq<char>| t == before + n + after {
        let (before, after) = choose|before: Seq<char>, after: Seq<char>| t == before + n + after;
        let i = before.len() as int;
        assert(t.subrange(i, i + n.len()) == n);
    }
}

} // verus!
