use vstd::prelude::*;

verus! {

use vstd::string::StringExecFns;
use crate::model::ProcessInfo;
use crate::text::{chars_of, dec_chars, int_chars, push_char, push_i64, push_u64, string_from_range};

// ---------------------------------------------------------------------------
// Notification text.
// ---------------------------------------------------------------------------

/// `s` cut to at most `max` characters; a longer command keeps its first
/// `max - 3` characters and ends in "...".
pub open spec fn spec_truncate(s: Seq<char>, max: nat) -> Seq<char> {
    if s.len() <= max {
        s
    } else {
        s.take(if max >= 3 {
            max - 3
        } else {
            0
        }) + "..."@
    }
}

pub fn truncate_command(command: &str, max_len: usize) -> (r: String)
    ensures
        r@ == spec_truncate(command@, max_len as nat),
{
    let cs = chars_of(command);
    if cs.len() <= max_len {
        command.to_owned()
    } else {
        let cut: usize = if max_len >= 3 {
            max_len - 3
        } else {
            0
        };
        let mut r = string_from_range(&cs, 0, cut);
        r.append("...");
        proof {
            assert(cs@.subrange(0, cut as int) =~= command@.take(cut as int));
        }
        r
    }
}

pub open spec fn spec_notification_title(port: u16, is_start: bool) -> Seq<char> {
    "Port "@ + dec_chars(port as nat) + (if is_start {
        " Started"@
    } else {
        " Stopped"@
    })
}

/// The command (cut to 40 characters) with the pid, and the project name
/// when one is known.
pub open spec fn spec_notification_body(
    cmd: Seq<char>,
    pid: int,
    project: Option<Seq<char>>,
) -> Seq<char> {
    let head = spec_truncate(cmd, 40) + " ("@ + int_chars(pid) + ")"@;
    match project {
        Option::Some(name) => head + " • "@ + name,
        Option::None => head,
    }
}

/// The title and body of one port notification.
pub fn format_notification(
    port: u16,
    process: &ProcessInfo,
    project_name: &Option<String>,
    is_start: bool,
) -> (r: (String, String))
    ensures
        r.0@ == spec_notification_title(port, is_start),
        r.1@ == spec_notification_body(
            process.command@,
            process.pid as int,
            match project_name {
                Option::Some(n) => Option::Some(n@),
                Option::None => Option::None,
            },
        ),
{
    let mut title = String::new();
    title.append("Port ");
    push_u64(&mut title, port as u64);
    if is_start {
        title.append(" Started");
    } else {
        title.append(" Stopped");
    }
    proof {
        assert(title@ =~= spec_notification_title(port, is_start));
    }

    let mut body = truncate_command(process.command.as_str(), 40);
    body.append(" (");
    push_i64(&mut body, process.pid as i64);
    body.append(")");
    proof {
        assert(body@ =~= spec_truncate(process.command@, 40) + " ("@ + int_chars(
            process.pid as int,
        ) + ")"@);
    }
    match project_name {
        Some(name) => {
            body.append(" • ");
            body.append(name.as_str());
            proof {
                assert(body@ =~= (spec_truncate(process.command@, 40) + " ("@ + int_chars(
                    process.pid as int,
                ) + ")"@) + " • "@ + name@);
            }
        },
        None => {},
    }
    (title, body)
}

/// Replaces double quotes with single quotes, so the text can stand inside
/// a quoted script argument.
pub open spec fn spec_escape_quotes(s: Seq<char>) -> Seq<char> {
    s.map(
        |i: int, c: char|
            if c == '"' {
                '\''
            } else {
                c
            },
    )
}

pub fn escape_quotes(s: &str) -> (r: String)
    ensures
        r@ == spec_escape_quotes(s@),
{
    let cs = chars_of(s);
    let mut out = String::new();
    let mut i: usize = 0;
    while i < cs.len()
        invariant
            i <= cs@.len(),
            cs@ == s@,
            out@ == spec_escape_quotes(s@.take(i as int)),
        decreases cs@.len() - i,
    {
        let c = cs[i];
        if c == '"' {
            push_char(&mut out, '\'');
        } else {
            push_char(&mut out, c);
        }
        proof {
            assert(out@ =~= spec_escape_quotes(s@.take(i + 1 as int)));
        }
        i = i + 1;
    }
    proof {
        assert(s@.take(s@.len() as int) =~= s@);
    }
    out
}

// ---------------------------------------------------------------------------
// Locating the bundle's notification icon.
// ---------------------------------------------------------------------------

/// Does `pat` stand at position `i` of `s`?
pub open spec fn match_at(s: Seq<char>, pat: Seq<char>, i: int) -> bool {
    0 <= i && i + pat.len() <= s.len() && s.subrange(i, i + pat.len()) == pat
}

pub open spec fn contains_seq(s: Seq<char>, pat: Seq<char>) -> bool {
    exists|i: int| #[trigger] match_at(s, pat, i)
}

fn match_at_exec(v: &Vec<char>, pat: &Vec<char>, i: usize) -> (r: bool)
    requires
        i + pat@.len() <= v@.len(),
    ensures
        r == match_at(v@, pat@, i as int),
{
    let vn = v.len();
    let mut k: usize = 0;
    while k < pat.len()
        invariant
            k <= pat@.len(),
            i + pat@.len() <= v@.len(),
            v@.len() == vn,
            forall|m: int| 0 <= m < k ==> v@[i + m] == pat@[m],
        decreases pat@.len() - k,
    {
        if v[i + k] != pat[k] {
            proof {
                assert(v@.subrange(i as int, i + pat@.len())[k as int] == v@[i + k]);
            }
            return false;
        }
        k = k + 1;
    }
    proof {
        assert(v@.subrange(i as int, i + pat@.len()) =~= pat@);
    }
    true
}

/// The position of the first occurrence of `pat` in `v`, if there is one.
fn find_first(v: &Vec<char>, pat: &Vec<char>) -> (r: Option<usize>)
    ensures
        match r {
            Option::Some(i) => match_at(v@, pat@, i as int) && (forall|j: int|
                0 <= j < i ==> !match_at(v@, pat@, j)),
            Option::None => !contains_seq(v@, pat@),
        },
{
    if pat.len() > v.len() {
        return None;
    }
    if pat.len() == 0 {
        proof {
            assert(v@.subrange(0, 0) =~= pat@);
        }
        return Some(0);
    }
    let last: usize = v.len() - pat.len();
    let mut i: usize = 0;
    while i <= last
        invariant
            last == v@.len() - pat@.len(),
            pat@.len() >= 1,
            last < usize::MAX,
            i <= last + 1,
            forall|j: int| 0 <= j < i ==> !match_at(v@, pat@, j),
        decreases last + 1 - i,
    {
        if match_at_exec(v, pat, i) {
            return Some(i);
        }
        i = i + 1;
    }
    proof {
        assert forall|j: int| !match_at(v@, pat@, j) by {
            if j > last {
                assert(j + pat@.len() > v@.len());
            }
        }
    }
    None
}

/// The icon shipped inside an application bundle: for an executable under
/// some bundle's MacOS directory, the path before the first ".app/" with
/// the bundle's resources suffix; None for a bare executable.
pub fn bundle_icon_path(exe_path: &str) -> (r: Option<String>)
    ensures
        match r {
            Option::Some(p) => {
                &&& contains_seq(exe_path@, ".app/Contents/MacOS"@)
                &&& exists|i: int|
                    {
                        &&& #[trigger] match_at(exe_path@, ".app/"@, i)
                        &&& (forall|j: int| 0 <= j < i ==> !match_at(exe_path@, ".app/"@, j))
                        &&& p@ == exe_path@.take(i) + ".app/Contents/Resources/AppIcon.png"@
                    }
            },
            Option::None => !contains_seq(exe_path@, ".app/Contents/MacOS"@),
        },
{
    let cs = chars_of(exe_path);
    let macos_pat = chars_of(".app/Contents/MacOS");
    if find_first(&cs, &macos_pat).is_none() {
        return None;
    }
    let pat = chars_of(".app/");
    match find_first(&cs, &pat) {
        Some(i) => {
            let mut p = string_from_range(&cs, 0, i);
            p.append(".app/Contents/Resources/AppIcon.png");
            proof {
                assert(cs@.subrange(0, i as int) =~= exe_path@.take(i as int));
            }
            Some(p)
        },
        None => {
            // A match of ".app/Contents/MacOS" is in particular a match of
            // its ".app/" prefix, so this arm cannot be reached.
            proof {
                reveal_strlit(".app/");
                reveal_strlit(".app/Contents/MacOS");
                let s = exe_path@;
                let at = choose|at: int| match_at(s, ".app/Contents/MacOS"@, at);
                assert(match_at(s, ".app/Contents/MacOS"@, at));
                assert(".app/"@ =~= ".app/Contents/MacOS"@.subrange(0, 5));
                assert(s.subrange(at, at + 5) =~= s.subrange(
                    at,
                    at + ".app/Contents/MacOS"@.len(),
                ).subrange(0, 5));
                assert(match_at(s, ".app/"@, at));
                assert(false);
            }
            None
        },
    }
}

// ---------------------------------------------------------------------------
// Which ports to announce.
// ---------------------------------------------------------------------------

/// Does some process in `ps` hold `port`?
pub open spec fn has_port(ps: Seq<ProcessInfo>, port: u16) -> bool {
    exists|i: int| 0 <= i < ps.len() && (#[trigger] ps[i]).port == port
}

/// The processes of `cur` to announce against `other`: for each port held
/// in `cur` but not in `other`, the first process of `cur` holding it.
pub open spec fn announce(cur: Seq<ProcessInfo>, other: Seq<ProcessInfo>) -> Seq<ProcessInfo>
    decreases cur.len(),
{
    if cur.len() == 0 {
        Seq::<ProcessInfo>::empty()
    } else {
        announce(cur.drop_last(), other) + (if !has_port(other, cur.last().port) && !has_port(
            cur.drop_last(),
            cur.last().port,
        ) {
            seq![cur.last()]
        } else {
            Seq::<ProcessInfo>::empty()
        })
    }
}

/// The name filed for `pid`, when one is.
pub open spec fn project_of(projects: Seq<(i32, String)>, pid: i32) -> Option<Seq<char>>
    decreases projects.len(),
{
    if projects.len() == 0 {
        Option::None
    } else if projects[0].0 == pid {
        Option::Some(projects[0].1@)
    } else {
        project_of(projects.skip(1), pid)
    }
}

proof fn lemma_project_of_skip(projects: Seq<(i32, String)>, pid: i32, i: int)
    requires
        0 <= i <= projects.len(),
        forall|j: int| 0 <= j < i ==> (#[trigger] projects[j]).0 != pid,
    ensures
        project_of(projects, pid) == project_of(projects.skip(i), pid),
    decreases i,
{
    if i > 0 {
        lemma_project_of_skip(projects.skip(1), pid, i - 1);
        assert(projects.skip(1).skip(i - 1) =~= projects.skip(i));
    } else {
        assert(projects.skip(0) =~= projects);
    }
}

/// The project name filed for `pid`, cloned out of the cache slice.
pub fn project_lookup(projects: &[(i32, String)], pid: i32) -> (r: Option<String>)
    ensures
        match r {
            Option::Some(name) => project_of(projects@, pid) == Option::Some(name@),
            Option::None => project_of(projects@, pid) is None,
        },
{
    let mut i: usize = 0;
    while i < projects.len()
        invariant
            i <= projects@.len(),
            forall|j: int| 0 <= j < i ==> (#[trigger] projects@[j]).0 != pid,
        decreases projects@.len() - i,
    {
        let entry = vstd::slice::slice_index_get(projects, i);
        if entry.0 == pid {
            proof {
                lemma_project_of_skip(projects@, pid, i as int);
                assert(projects@.skip(i as int)[0] == projects@[i as int]);
            }
            return Some(entry.1.clone());
        }
        i = i + 1;
    }
    proof {
        lemma_project_of_skip(projects@, pid, projects@.len() as int);
        assert(projects@.skip(projects@.len() as int) =~= Seq::<(i32, String)>::empty());
    }
    None
}

fn slice_has_port_before(ps: &[ProcessInfo], end: usize, port: u16) -> (r: bool)
    requires
        end <= ps@.len(),
    ensures
        r == has_port(ps@.take(end as int), port),
{
    let mut i: usize = 0;
    while i < end
        invariant
            i <= end <= ps@.len(),
            forall|j: int| 0 <= j < i ==> (#[trigger] ps@[j]).port != port,
        decreases end - i,
    {
        if vstd::slice::slice_index_get(ps, i).port == port {
            proof {
                assert(ps@.take(end as int)[i as int] == ps@[i as int]);
            }
            return true;
        }
        i = i + 1;
    }
    proof {
        assert forall|j: int| 0 <= j < end implies (#[trigger] ps@.take(end as int)[j]).port
            != port by {
            assert(ps@.take(end as int)[j] == ps@[j]);
        }
    }
    false
}

fn slice_has_port(ps: &[ProcessInfo], port: u16) -> (r: bool)
    ensures
        r == has_port(ps@, port),
{
    let r = slice_has_port_before(ps, ps.len(), port);
    proof {
        assert(ps@.take(ps@.len() as int) =~= ps@);
    }
    r
}

/// The notifications one refresh produces: when enabled, a "started" pair
/// for each port newly held, then a "stopped" pair for each port no longer
/// held, each formatted from the first process holding the port and the
/// project name filed for its pid.
pub fn maybe_notify_changes(
    enabled: bool,
    current: &[ProcessInfo],
    prev: &[ProcessInfo],
    projects: &[(i32, String)],
) -> (r: Vec<(String, String)>)
    ensures
        !enabled ==> r@.len() == 0,
        enabled ==> {
            let starts = announce(current@, prev@);
            let stops = announce(prev@, current@);
            &&& r@.len() == starts.len() + stops.len()
            &&& forall|j: int|
                0 <= j < starts.len() ==> {
                    let p = starts[j];
                    (#[trigger] r@[j]).0@ == spec_notification_title(p.port, true) && r@[j].1@
                        == spec_notification_body(
                        p.command@,
                        p.pid as int,
                        project_of(projects@, p.pid),
                    )
                }
            &&& forall|j: int|
                starts.len() <= j < r@.len() ==> {
                    let p = stops[j - starts.len()];
                    (#[trigger] r@[j]).0@ == spec_notification_title(p.port, false) && r@[j].1@
                        == spec_notification_body(
                        p.command@,
                        p.pid as int,
                        project_of(projects@, p.pid),
                    )
                }
        },
{
    let mut out: Vec<(String, String)> = Vec::new();
    if !enabled {
        return out;
    }
    let mut i: usize = 0;
    while i < current.len()
        invariant
            i <= current@.len(),
            out@.len() == announce(current@.take(i as int), prev@).len(),
            forall|j: int|
                0 <= j < out@.len() ==> {
                    let p = announce(current@.take(i as int), prev@)[j];
                    (#[trigger] out@[j]).0@ == spec_notification_title(p.port, true) && out@[j].1@
                        == spec_notification_body(
                        p.command@,
                        p.pid as int,
                        project_of(projects@, p.pid),
                    )
                },
        decreases current@.len() - i,
    {
        let p = vstd::slice::slice_index_get(current, i);
        proof {
            assert(current@.take(i + 1 as int).drop_last() =~= current@.take(i as int));
            assert(current@.take(i + 1 as int).last() == current@[i as int]);
        }
        if !slice_has_port(prev, p.port) && !slice_has_port_before(current, i, p.port) {
            let project = project_lookup(projects, p.pid);
            let (title, body) = format_notification(p.port, p, &project, true);
            out.push((title, body));
        }
        i = i + 1;
    }
    proof {
        assert(current@.take(current@.len() as int) =~= current@);
    }
    let ghost start_count = out@.len() as int;
    let mut k: usize = 0;
    while k < prev.len()
        invariant
            k <= prev@.len(),
            start_count == announce(current@, prev@).len(),
            out@.len() == start_count + announce(prev@.take(k as int), current@).len(),
            forall|j: int|
                0 <= j < start_count ==> {
                    let p = announce(current@, prev@)[j];
                    (#[trigger] out@[j]).0@ == spec_notification_title(p.port, true) && out@[j].1@
                        == spec_notification_body(
                        p.command@,
                        p.pid as int,
                        project_of(projects@, p.pid),
                    )
                },
            forall|j: int|
                start_count <= j < out@.len() ==> {
                    let p = announce(prev@.take(k as int), current@)[j - start_count];
                    (#[trigger] out@[j]).0@ == spec_notification_title(p.port, false) && out@[j].1@
                        == spec_notification_body(
                        p.command@,
                        p.pid as int,
                        project_of(projects@, p.pid),
                    )
                },
        decreases prev@.len() - k,
    {
        let p = vstd::slice::slice_index_get(prev, k);
        proof {
            assert(prev@.take(k + 1 as int).drop_last() =~= prev@.take(k as int));
            assert(prev@.take(k + 1 as int).last() == prev@[k as int]);
        }
        if !slice_has_port(current, p.port) && !slice_has_port_before(prev, k, p.port) {
            let project = project_lookup(projects, p.pid);
            let (title, body) = format_notification(p.port, p, &project, false);
            out.push((title, body));
        }
        k = k + 1;
    }
    proof {
        assert(prev@.take(prev@.len() as int) =~= prev@);
    }
    out
}

} // verus!
