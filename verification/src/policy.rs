//! Checks on repository configuration text.
//!
//! Pure text readers behind the project's configuration policy: navigation
//! entries out of a mkdocs file, card links and titles out of markdown, and
//! toolchain references and suppression directives out of workflow and
//! script text.  They work line by line on plain text and never touch the
//! filesystem.

use crate::json::push_char;
use vstd::prelude::*;

verus! {

/// Line-breaking and trimmable whitespace.
pub open spec fn is_space(c: char) -> bool {
    c == ' ' || c == '\t' || c == '\r' || c == '\n'
}

fn is_space_exec(c: char) -> (r: bool)
    ensures
        r == is_space(c),
{
    c == ' ' || c == '\t' || c == '\r' || c == '\n'
}

fn chars_of(s: &str) -> (r: Vec<char>)
    ensures
        r@ == s@,
{
    crate::json::to_char_vec(s)
}

fn string_of(cs: &Vec<char>, lo: usize, hi: usize) -> (r: String)
    requires
        lo <= hi <= cs@.len(),
    ensures
        r@ == cs@.subrange(lo as int, hi as int),
{
    let mut out = String::new();
    let mut i: usize = lo;
    while i < hi
        invariant
            lo <= i <= hi <= cs@.len(),
            out@ == cs@.subrange(lo as int, i as int),
        decreases hi - i,
    {
        push_char(&mut out, cs[i]);
        i = i + 1;
        proof {
            assert(out@ =~= cs@.subrange(lo as int, i as int));
        }
    }
    out
}

/// The text ends with the markdown suffix.
pub open spec fn ends_md(s: Seq<char>) -> bool {
    s.len() >= 3 && s.subrange(s.len() - 3, s.len() as int) == ".md"@
}

/// Whether `pat` occurs at position `i` of `cs[..hi]`.
pub open spec fn occurs_at(cs: Seq<char>, hi: int, i: int, pat: Seq<char>) -> bool {
    0 <= i && i + pat.len() <= hi <= cs.len() && cs.subrange(i, i + pat.len() as int) == pat
}

fn starts_at(cs: &Vec<char>, hi: usize, i: usize, pat: &str) -> (r: bool)
    requires
        i <= hi <= cs@.len(),
    ensures
        r == occurs_at(cs@, hi as int, i as int, pat@),
{
    let m = pat.unicode_len();
    if hi - i < m {
        return false;
    }
    let mut k: usize = 0;
    while k < m
        invariant
            k <= m,
            m == pat@.len(),
            i + m <= hi <= cs@.len(),
            forall|x: int| 0 <= x < k ==> cs@[i + x] == pat@[x],
        decreases m - k,
    {
        if cs[i + k] != pat.get_char(k) {
            proof {
                assert(cs@.subrange(i as int, i + pat@.len() as int)[k as int] != pat@[k as int]);
            }
            return false;
        }
        k = k + 1;
    }
    proof {
        assert(cs@.subrange(i as int, i + pat@.len() as int) =~= pat@);
    }
    true
}

fn find_from(cs: &Vec<char>, lo: usize, hi: usize, pat: &str) -> (r: Option<usize>)
    requires
        lo <= hi <= cs@.len(),
        pat@.len() >= 1,
    ensures
        match r {
            Some(i) => lo <= i && occurs_at(cs@, hi as int, i as int, pat@),
            None => forall|x: int| lo <= x ==> !occurs_at(cs@, hi as int, x, pat@),
        },
{
    let mut i: usize = lo;
    while i < hi
        invariant
            lo <= i,
            lo <= hi <= cs@.len(),
            pat@.len() >= 1,
            forall|x: int| lo <= x < i ==> !occurs_at(cs@, hi as int, x, pat@),
        decreases hi - i,
    {
        if starts_at(cs, hi, i, pat) {
            return Some(i);
        }
        i = i + 1;
    }
    None
}

fn rfind_from(cs: &Vec<char>, lo: usize, hi: usize, pat: &str) -> (r: Option<usize>)
    requires
        lo <= hi <= cs@.len(),
        pat@.len() >= 1,
    ensures
        match r {
            Some(i) => lo <= i && occurs_at(cs@, hi as int, i as int, pat@),
            None => forall|x: int| lo <= x ==> !occurs_at(cs@, hi as int, x, pat@),
        },
{
    let mut i: usize = hi;
    while i > lo
        invariant
            lo <= i <= hi <= cs@.len(),
            pat@.len() >= 1,
            forall|x: int| i <= x ==> !occurs_at(cs@, hi as int, x, pat@),
        decreases i,
    {
        i = i - 1;
        if starts_at(cs, hi, i, pat) {
            return Some(i);
        }
    }
    None
}

fn trim_bounds(cs: &Vec<char>, lo: usize, hi: usize) -> (r: (usize, usize))
    requires
        lo <= hi <= cs@.len(),
    ensures
        lo <= r.0 <= r.1 <= hi,
        forall|x: int| lo <= x < r.0 ==> is_space(#[trigger] cs@[x]),
        forall|x: int| r.1 <= x < hi ==> is_space(#[trigger] cs@[x]),
        r.0 < r.1 ==> !is_space(cs@[r.0 as int]) && !is_space(cs@[r.1 - 1]),
{
    let mut a: usize = lo;
    let mut b: usize = hi;
    while a < b && is_space_exec(cs[a])
        invariant
            lo <= a <= b <= hi <= cs@.len(),
            b == hi,
            forall|x: int| lo <= x < a ==> is_space(#[trigger] cs@[x]),
        decreases b - a,
    {
        a = a + 1;
    }
    while a < b && is_space_exec(cs[b - 1])
        invariant
            lo <= a <= b <= hi <= cs@.len(),
            forall|x: int| b <= x < hi ==> is_space(#[trigger] cs@[x]),
        decreases b,
    {
        b = b - 1;
    }
    (a, b)
}

fn line_bounds(cs: &Vec<char>) -> (r: Vec<(usize, usize)>)
    ensures
        forall|x: int| 0 <= x < r@.len() ==> (#[trigger] r@[x]).0 <= r@[x].1 <= cs@.len(),
{
    let n = cs.len();
    let mut out: Vec<(usize, usize)> = Vec::new();
    let mut start: usize = 0;
    let mut i: usize = 0;
    while i < n
        invariant
            start <= i <= n,
            n == cs@.len(),
            forall|x: int| 0 <= x < out@.len() ==> (#[trigger] out@[x]).0 <= out@[x].1 <= cs@.len(),
        decreases n - i,
    {
        if cs[i] == '\n' {
            let mut e = i;
            if e > start && cs[e - 1] == '\r' {
                e = e - 1;
            }
            out.push((start, e));
            start = i + 1;
        }
        i = i + 1;
    }
    if start < n {
        let mut e = n;
        if e > start && cs[e - 1] == '\r' {
            e = e - 1;
        }
        out.push((start, e));
    }
    out
}

/// Extracts all markdown file references from a mkdocs navigation section.
/// An entry looks like `  - Label: file.md`, split on the last `: ` so
/// labels may hold colons, or a bare `  - file.md`; the section ends at the
/// next top-level key.  Returns one-based line numbers with each reference.
#[verifier::loop_isolation(false)]
pub fn extract_nav_file_references(content: &str) -> (r: Vec<(usize, String)>)
    ensures
        forall|x: int|
            0 <= x < r@.len() ==> (#[trigger] r@[x]).0 >= 1 && ends_md(r@[x].1@),
{
    proof {
        reveal_strlit("nav:");
        reveal_strlit("- ");
        reveal_strlit(": ");
        reveal_strlit(".md");
        reveal_strlit(" ");
        reveal_strlit("#");
    }
    let cs = chars_of(content);
    let lines = line_bounds(&cs);
    let mut out: Vec<(usize, String)> = Vec::new();
    let mut in_nav = false;
    let n = lines.len();
    let mut li: usize = 0;
    while li < n
        invariant
            li <= n,
            n == lines@.len(),
            cs@ == content@,
            forall|x: int| 0 <= x < lines@.len() ==> (#[trigger] lines@[x]).0 <= lines@[x].1
                <= cs@.len(),
            forall|x: int|
                0 <= x < out@.len() ==> (#[trigger] out@[x]).0 >= 1 && ends_md(out@[x].1@),
        decreases n - li,
    {
        let (lo, hi) = lines[li];
        let (tlo, thi) = trim_bounds(&cs, lo, hi);
        if starts_at(&cs, thi, tlo, "nav:") && thi - tlo == 4 {
            in_nav = true;
            li = li + 1;
            continue;
        }
        if in_nav && hi > lo && !starts_at(&cs, hi, lo, " ") && !starts_at(&cs, hi, lo, "#") {
            break;
        }
        if in_nav && starts_at(&cs, thi, tlo, "- ") {
            let plo = tlo + 2;
            match rfind_from(&cs, plo, thi, ": ") {
                Some(c) => {
                    let (flo, fhi) = trim_bounds(&cs, c + 2, thi);
                    if fhi - flo >= 3 && starts_at(&cs, fhi, fhi - 3, ".md") {
                        let file = string_of(&cs, flo, fhi);
                        proof {
                            assert(file@.subrange(file@.len() - 3, file@.len() as int)
                                =~= cs@.subrange(fhi - 3, fhi as int));
                        }
                        out.push((li + 1, file));
                    }
                }
                None => {
                    let (flo, fhi) = trim_bounds(&cs, plo, thi);
                    if fhi - flo >= 3 && starts_at(&cs, fhi, fhi - 3, ".md") {
                        let file = string_of(&cs, flo, fhi);
                        proof {
                            assert(file@.subrange(file@.len() - 3, file@.len() as int)
                                =~= cs@.subrange(fhi - 3, fhi as int));
                        }
                        out.push((li + 1, file));
                    }
                }
            }
        }
        li = li + 1;
    }
    out
}

/// Extracts navigation card links `[:octicons-arrow-right-24: LABEL](FILE)`
/// from markdown, keeping only local `.md` targets.
#[verifier::loop_isolation(false)]
pub fn extract_nav_card_links(content: &str) -> (r: Vec<(String, String)>)
    ensures
        forall|x: int| 0 <= x < r@.len() ==> ends_md((#[trigger] r@[x]).1@),
{
    proof {
        reveal_strlit("[:octicons-arrow-right-24: ");
        reveal_strlit("](");
        reveal_strlit(")");
        reveal_strlit(".md");
        reveal_strlit("http");
    }
    let cs = chars_of(content);
    let lines = line_bounds(&cs);
    let mut out: Vec<(String, String)> = Vec::new();
    let n = lines.len();
    let mut li: usize = 0;
    while li < n
        invariant
            li <= n,
            n == lines@.len(),
            forall|x: int| 0 <= x < lines@.len() ==> (#[trigger] lines@[x]).0 <= lines@[x].1
                <= cs@.len(),
            forall|x: int| 0 <= x < out@.len() ==> ends_md((#[trigger] out@[x]).1@),
        decreases n - li,
    {
        let (lo, hi) = lines[li];
        let (tlo, thi) = trim_bounds(&cs, lo, hi);
        if starts_at(&cs, thi, tlo, "[:octicons-arrow-right-24: ") {
            let rest = tlo + 27;
            match find_from(&cs, rest, thi, "](") {
                Some(b) => {
                    match find_from(&cs, b + 2, thi, ")") {
                        Some(p) => {
                            let fhi = p;
                            let flo = b + 2;
                            if fhi - flo >= 3 && starts_at(&cs, fhi, fhi - 3, ".md")
                                && !starts_at(&cs, fhi, flo, "http") {
                                let label = string_of(&cs, rest, b);
                                let file = string_of(&cs, flo, fhi);
                                proof {
                                    assert(file@.subrange(
                                        file@.len() - 3,
                                        file@.len() as int,
                                    ) =~= cs@.subrange(fhi - 3, fhi as int));
                                }
                                out.push((label, file));
                            }
                        }
                        None => {}
                    }
                }
                None => {}
            }
        }
        li = li + 1;
    }
    out
}

/// Extracts the first level-one heading (`# Title`) from markdown,
/// skipping lines inside fenced code blocks.
#[verifier::loop_isolation(false)]
pub fn extract_h1(content: &str) -> (r: Option<String>) {
    proof {
        reveal_strlit("```");
        reveal_strlit("~~~");
        reveal_strlit("# ");
    }
    let cs = chars_of(content);
    let lines = line_bounds(&cs);
    let mut fence: Option<char> = None;
    let n = lines.len();
    let mut li: usize = 0;
    while li < n
        invariant
            li <= n,
            n == lines@.len(),
            forall|x: int| 0 <= x < lines@.len() ==> (#[trigger] lines@[x]).0 <= lines@[x].1
                <= cs@.len(),
        decreases n - li,
    {
        let (lo, hi) = lines[li];
        let (tlo, thi) = trim_bounds(&cs, lo, hi);
        if starts_at(&cs, thi, tlo, "```") || starts_at(&cs, thi, tlo, "~~~") {
            let ch = cs[tlo];
            match fence {
                Some(fc) => {
                    if ch == fc {
                        fence = None;
                    }
                }
                None => {
                    fence = Some(ch);
                }
            }
            li = li + 1;
            continue;
        }
        if fence.is_none() && starts_at(&cs, thi, tlo, "# ") {
            let (rlo, rhi) = trim_bounds(&cs, tlo + 2, thi);
            return Some(string_of(&cs, rlo, rhi));
        }
        li = li + 1;
    }
    None
}

fn trim_quotes(cs: &Vec<char>, lo: usize, hi: usize) -> (r: (usize, usize))
    requires
        lo <= hi <= cs@.len(),
    ensures
        lo <= r.0 <= r.1 <= hi,
{
    let mut a: usize = lo;
    let mut b: usize = hi;
    while a < b && (cs[a] == '"' || cs[a] == '\'')
        invariant
            lo <= a <= b <= hi <= cs@.len(),
        decreases b - a,
    {
        a = a + 1;
    }
    while a < b && (cs[b - 1] == '"' || cs[b - 1] == '\'')
        invariant
            lo <= a <= b <= hi <= cs@.len(),
        decreases b,
    {
        b = b - 1;
    }
    (a, b)
}

/// The semver-like shape the policy refuses in a toolchain reference:
/// nonempty, made only of digits and dots, with at least one digit.
pub open spec fn semver_like(s: Seq<char>) -> bool {
    &&& s.len() >= 1
    &&& forall|x: int| 0 <= x < s.len() ==> crate::json::is_digit(#[trigger] s[x]) || s[x] == '.'
    &&& exists|x: int| 0 <= x < s.len() && crate::json::is_digit(#[trigger] s[x])
}

/// A dtolnay toolchain reference of the semver-like shape, exactly as
/// `semver_like` describes it.
pub fn is_semver_like_dtolnay_ref(reference: &str) -> (r: bool)
    ensures
        r == semver_like(reference@),
{
    let cs = chars_of(reference);
    let n = cs.len();
    if n == 0 {
        return false;
    }
    let mut saw_digit = false;
    let mut i: usize = 0;
    while i < n
        invariant
            i <= n,
            n == cs@.len(),
            cs@ == reference@,
            forall|x: int|
                0 <= x < i ==> crate::json::is_digit(#[trigger] cs@[x]) || cs@[x] == '.',
            saw_digit == exists|x: int| 0 <= x < i && crate::json::is_digit(#[trigger] cs@[x]),
        decreases n - i,
    {
        let c = cs[i];
        let u: u32 = c as u32;
        if 48 <= u && u <= 57 {
            saw_digit = true;
            proof {
                assert(crate::json::is_digit(cs@[i as int]));
            }
        } else if c != '.' {
            return false;
        }
        i = i + 1;
    }
    saw_digit
}

fn first_token_end(cs: &Vec<char>, lo: usize, hi: usize) -> (r: usize)
    requires
        lo <= hi <= cs@.len(),
    ensures
        lo <= r <= hi,
{
    let mut i: usize = lo;
    while i < hi && !is_space_exec(cs[i])
        invariant
            lo <= i <= hi <= cs@.len(),
        decreases hi - i,
    {
        i = i + 1;
    }
    i
}

/// Validates the toolchain step of a continuous-integration job block: the
/// step must use the stable dtolnay toolchain action with an explicit
/// `toolchain:` matching the given version, never a semver-like reference.
#[verifier::loop_isolation(false)]
pub fn validate_msrv_toolchain_step(job_block: &str, version: &str) -> (r: Result<
    (),
    String,
>) {
    proof {
        reveal_strlit("- uses: dtolnay/rust-toolchain@");
        reveal_strlit("uses: dtolnay/rust-toolchain@");
        reveal_strlit("uses: dtolnay/rust-toolchain@stable");
        reveal_strlit("toolchain:");
    }
    let cs = chars_of(job_block);
    let lines = line_bounds(&cs);
    let n = lines.len();
    let mut has_semver_ref = false;
    let mut has_stable = false;
    let mut toolchain_ok = false;
    let vcs = chars_of(version);
    let mut li: usize = 0;
    while li < n
        invariant
            li <= n,
            n == lines@.len(),
            forall|x: int| 0 <= x < lines@.len() ==> (#[trigger] lines@[x]).0 <= lines@[x].1
                <= cs@.len(),
            vcs@ == version@,
        decreases n - li,
    {
        let (lo, hi) = lines[li];
        let (tlo, thi) = trim_bounds(&cs, lo, hi);
        let refstart: Option<usize> = if starts_at(
            &cs,
            thi,
            tlo,
            "- uses: dtolnay/rust-toolchain@",
        ) {
            Some(tlo + 31)
        } else if starts_at(&cs, thi, tlo, "uses: dtolnay/rust-toolchain@") {
            Some(tlo + 29)
        } else {
            None
        };
        match refstart {
            Some(rs) => {
                let te = first_token_end(&cs, rs, thi);
                let (qa, qb) = trim_quotes(&cs, rs, te);
                let tok = string_of(&cs, qa, qb);
                if is_semver_like_dtolnay_ref(tok.as_str()) {
                    has_semver_ref = true;
                }
            }
            None => {}
        }
        match find_from(&cs, tlo, thi, "uses: dtolnay/rust-toolchain@stable") {
            Some(_) => {
                has_stable = true;
            }
            None => {}
        }
        if starts_at(&cs, thi, tlo, "toolchain:") {
            let (va, vb) = trim_bounds(&cs, tlo + 10, thi);
            let (qa, qb) = trim_quotes(&cs, va, vb);
            if qb - qa == vcs.len() {
                let mut same = true;
                let mut k: usize = 0;
                let m = vcs.len();
                while k < m
                    invariant
                        k <= m,
                        m == vcs@.len(),
                        qa + m == qb,
                        qb <= cs@.len(),
                    decreases m - k,
                {
                    if cs[qa + k] != vcs[k] {
                        same = false;
                    }
                    k = k + 1;
                }
                if same {
                    toolchain_ok = true;
                }
            }
        }
        li = li + 1;
    }
    if has_semver_ref {
        let mut msg = String::from_str(
            "MSRV job uses a semver-like dtolnay/rust-toolchain ref (digits/dots only). ",
        );
        msg.append("Use @stable with explicit with.toolchain instead.");
        return Err(msg);
    }
    if !has_stable {
        return Err(
            String::from_str("MSRV job is missing 'uses: dtolnay/rust-toolchain@stable'."),
        );
    }
    if !toolchain_ok {
        let mut msg = String::from_str("MSRV job is missing explicit 'toolchain: ");
        msg.append(version);
        msg.append("' (quoted or unquoted) in the rust-toolchain step.");
        return Err(msg);
    }
    Ok(())
}

/// One pattern occurs somewhere in the text.
pub open spec fn contains_pat(s: Seq<char>, pat: Seq<char>) -> bool {
    exists|x: int| occurs_at(s, s.len() as int, x, pat)
}

/// A well-formed shell suppression directive line: the fixed prefix, no
/// inline dash separator (plain, em or en), and any rationale after the
/// prefix introduced by a second comment marker.
pub open spec fn sc2317_directive_ok(s: Seq<char>) -> bool {
    &&& occurs_at(s, s.len() as int, 0, "# shellcheck disable=SC2317"@)
    &&& !contains_pat(s, " -- "@)
    &&& !contains_pat(s, " \u{2014} "@)
    &&& !contains_pat(s, " \u{2013} "@)
    &&& ((exists|x: int| 27 <= x < s.len() && !is_space(#[trigger] s[x])) ==> contains_pat(
        s,
        "  # "@,
    ))
}

/// Validates one shell suppression directive line, exactly as
/// `sc2317_directive_ok` describes it.
#[verifier::loop_isolation(false)]
pub fn validate_sc2317_directive_line(path: &str, line_number: usize, directive_line: &str)
    -> (r: Result<(), String>)
    ensures
        r is Ok <==> sc2317_directive_ok(directive_line@),
{
    proof {
        reveal_strlit("# shellcheck disable=SC2317");
        reveal_strlit("  # ");
        reveal_strlit(" -- ");
        reveal_strlit(" \u{2014} ");
        reveal_strlit(" \u{2013} ");
    }
    let cs = chars_of(directive_line);
    let n = cs.len();
    if !starts_at(&cs, n, 0, "# shellcheck disable=SC2317") {
        let mut msg = String::from_str(path);
        msg.append(": directive must start with '# shellcheck disable=SC2317'");
        return Err(msg);
    }
    if let Some(_) = find_from(&cs, 0, n, " -- ") {
        let mut msg = String::from_str(path);
        msg.append(": directive must not contain a dash separator");
        return Err(msg);
    }
    if let Some(_) = find_from(&cs, 0, n, " \u{2014} ") {
        let mut msg = String::from_str(path);
        msg.append(": directive must not contain a dash separator");
        return Err(msg);
    }
    if let Some(_) = find_from(&cs, 0, n, " \u{2013} ") {
        let mut msg = String::from_str(path);
        msg.append(": directive must not contain a dash separator");
        return Err(msg);
    }
    let prefix_len: usize = 27;
    if n > prefix_len {
        let (ta, tb) = trim_bounds(&cs, prefix_len, n);
        if tb > ta {
            match find_from(&cs, 0, n, "  # ") {
                Some(_) => {}
                None => {
                    let mut msg = String::from_str(path);
                    msg.append(": directive rationale must use '  # '");
                    return Err(msg);
                }
            }
        } else {
            proof {
                assert forall|x: int| 27 <= x < cs@.len() implies is_space(
                    #[trigger] cs@[x],
                ) by {
                }
            }
        }
    }
    let _ = line_number;
    Ok(())
}

} // verus!
