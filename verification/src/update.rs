//! Release version handling for the self-update command: version strings,
//! release severities, the update-check cache and the update notice.
use vstd::prelude::*;
use crate::paths::{file_stem, file_stem_spec, join, join_spec, parent, parent_spec};
use crate::text::{
    chars_of, contains, contains_chars, eq_str, is_digit, slice_chars, split_chars, split_spec,
    starts_with, starts_with_chars, string_from, trim, trim_chars, trim_start_by, views, find,
    find_chars, occurs_at, lemma_find_from, push_chars, push_str, is_ws, eq_chars,
    ascii_lower_seq, ascii_lowercase_chars, lowercase_of, to_lowercase_chars, hex_lower,
    hex_lower_chars, lemma_trim_start_shape, lemma_trim_end_shape, trim_by, trim_end_by,
};

verus! {

/// Urgency level embedded in a release body.
#[derive(Clone, Copy, Debug, PartialEq, Eq, Structural)]
pub enum Severity {
    Minor,
    Major,
    Critical,
}

/// The name under which a severity is written to the cache.
pub open spec fn severity_name(s: Severity) -> Seq<char> {
    match s {
        Severity::Minor => "minor"@,
        Severity::Major => "major"@,
        Severity::Critical => "critical"@,
    }
}

/// The severity that a cached name stands for; unknown names mean `Minor`.
pub open spec fn severity_from_name(s: Seq<char>) -> Severity {
    if s == "critical"@ {
        Severity::Critical
    } else if s == "major"@ {
        Severity::Major
    } else {
        Severity::Minor
    }
}

/// The severity marked by the first line of `lines`, from index `i` on, that is an
/// HTML comment carrying `seer-severity:`.
pub open spec fn severity_in_lines(lines: Seq<Seq<char>>, i: int) -> Severity
    decreases lines.len() - i,
{
    if i < 0 || i >= lines.len() {
        Severity::Minor
    } else {
        let l = trim(lines[i]);
        if !starts_with(l, "<!--"@) || !contains(l, "seer-severity:"@) {
            severity_in_lines(lines, i + 1)
        } else if contains(l, "critical"@) {
            Severity::Critical
        } else if contains(l, "major"@) {
            Severity::Major
        } else {
            Severity::Minor
        }
    }
}

/// The severity that a release body declares with `<!-- seer-severity: <level> -->`.
pub open spec fn severity_of_body(body: Seq<char>) -> Severity {
    severity_in_lines(split_spec(body, '\n'), 0)
}

impl Severity {
    /// Parses `<!-- seer-severity: <level> -->` from a release body: the first
    /// comment line that carries the marker decides, and `Minor` is the default.
    pub fn from_release_body(body: &str) -> (s: Severity)
        ensures
            s == severity_of_body(body@),
    {
        let b = chars_of(body);
        let lines = split_chars(&b, '\n');
        let open = chars_of("<!--");
        let marker = chars_of("seer-severity:");
        let critical = chars_of("critical");
        let major = chars_of("major");
        let mut i: usize = 0;
        while i < lines.len()
            invariant
                i <= lines.len(),
                views(lines@) == split_spec(body@, '\n'),
                open@ == "<!--"@,
                marker@ == "seer-severity:"@,
                critical@ == "critical"@,
                major@ == "major"@,
                severity_of_body(body@) == severity_in_lines(views(lines@), i as int),
            decreases lines.len() - i,
        {
            let l = trim_chars(&lines[i]);
            assert(views(lines@)[i as int] == lines@[i as int]@);
            if starts_with_chars(&l, &open) && contains_chars(&l, &marker) {
                if contains_chars(&l, &critical) {
                    return Severity::Critical;
                }
                if contains_chars(&l, &major) {
                    return Severity::Major;
                }
                return Severity::Minor;
            }
            i = i + 1;
        }
        Severity::Minor
    }

    /// The name of the severity, as the cache stores it.
    pub fn as_str(self) -> (r: &'static str)
        ensures
            r@ == severity_name(self),
    {
        match self {
            Severity::Minor => "minor",
            Severity::Major => "major",
            Severity::Critical => "critical",
        }
    }

    /// The severity that a cached name stands for; unknown names give `Minor`.
    pub fn from_str(s: &str) -> (r: Severity)
        ensures
            r == severity_from_name(s@),
    {
        let v = chars_of(s);
        if eq_str(&v, "critical") {
            Severity::Critical
        } else if eq_str(&v, "major") {
            Severity::Major
        } else {
            Severity::Minor
        }
    }
}

/// Reading back the name of a severity gives the same severity.
pub proof fn lemma_severity_name_round_trip(s: Severity)
    ensures
        severity_from_name(severity_name(s)) == s,
{
    reveal_strlit("minor");
    reveal_strlit("major");
    reveal_strlit("critical");
    assert("minor"@ != "critical"@ && "minor"@ != "major"@ && "major"@ != "critical"@) by {
        assert("minor"@.len() != "critical"@.len());
        assert("minor"@[1] != "major"@[1]);
        assert("major"@.len() != "critical"@.len());
    }
}


/// A version string without surrounding whitespace and without leading `v`s.
pub open spec fn clean_version_spec(v: Seq<char>) -> Seq<char> {
    trim_start_by(trim(v), |c: char| c == 'v')
}

/// Removes surrounding whitespace and then every leading `v`, so that `" v1.2.3 "`
/// becomes `"1.2.3"`.
pub fn clean_version(v: &str) -> (r: String)
    ensures
        r@ == clean_version_spec(v@),
{
    let c = chars_of(v);
    let t = trim_chars(&c);
    let mut i: usize = 0;
    assert(t@.skip(0) =~= t@);
    while i < t.len() && t[i] == 'v'
        invariant
            i <= t.len(),
            t@ == trim(v@),
            trim_start_by(t@, |c: char| c == 'v') == trim_start_by(t@.skip(i as int), |c: char| c == 'v'),
        decreases t.len() - i,
    {
        assert(t@.skip(i as int).drop_first() =~= t@.skip(i + 1));
        i = i + 1;
    }
    let r = slice_chars(&t, i, t.len());
    assert(r@ =~= t@.skip(i as int));
    string_from(&r)
}

/// Asking for a version with or without its `v` names the same release: the tag
/// built for a requested version cleans back to the cleaned request, so that
/// `0.2.1` and `v0.2.1` are compared alike.
pub proof fn lemma_requested_tag_cleans_back(version: Seq<char>)
    ensures
        clean_version_spec(seq!['v'] + clean_version_spec(version)) == clean_version_spec(version),
{
    let ws = |c: char| is_ws(c);
    let isv = |c: char| c == 'v';
    let ts = trim_start_by(version, ws);
    let k0 = lemma_trim_start_shape(version, ws);
    let t = trim_end_by(ts, ws);
    let j0 = lemma_trim_end_shape(ts, ws);
    assert(trim(version) == t);
    let c = trim_start_by(t, isv);
    let k1 = lemma_trim_start_shape(t, isv);
    assert(c == t.skip(k1));
    let w = seq!['v'] + c;
    assert(!is_ws('v'));
    assert(trim_start_by(w, ws) == w);
    let j2 = lemma_trim_end_shape(w, ws);
    if j2 < w.len() {
        assert(ws(w[j2]) || ws(w.last()));
        if c.len() > 0 {
            assert(w.last() == c.last());
            assert(c.last() == t[t.len() - 1]);
            assert(t.len() == j0 && t[j0 - 1] == ts[j0 - 1]);
        }
        assert(ws(w.last()));
        assert(trim_end_by(w, ws) == trim_end_by(w.drop_last(), ws));
        assert(false);
    }
    assert(w.take(j2) =~= w);
    assert(trim(w) == w);
    assert(w.drop_first() =~= c);
    assert(trim_start_by(w, isv) == trim_start_by(c, isv));
    if c.len() > 0 {
        assert(!isv(c[0]));
    }
    assert(trim_start_by(c, isv) == c);
}

/// The longest prefix of `s` made of ASCII digits.
pub open spec fn digit_prefix(s: Seq<char>) -> Seq<char>
    decreases s.len(),
{
    if s.len() > 0 && is_digit(s[0]) {
        seq![s[0]] + digit_prefix(s.drop_first())
    } else {
        Seq::empty()
    }
}

/// The number that a sequence of ASCII digits denotes.
pub open spec fn digits_value(d: Seq<char>) -> nat
    decreases d.len(),
{
    if d.len() == 0 {
        0
    } else {
        digits_value(d.drop_last()) * 10 + ((d.last() as u32) - 48) as nat
    }
}

/// The number that one dot-separated version component stands for: the value of its
/// leading digits, and 0 where it has none or where they overflow a `u64`.
pub open spec fn component_value(part: Seq<char>) -> u64 {
    let d = digit_prefix(part);
    if d.len() == 0 || digits_value(d) > u64::MAX {
        0
    } else {
        digits_value(d) as u64
    }
}

/// Component `i` of a version string (0 where the string has fewer components).
pub open spec fn version_part(v: Seq<char>, i: int) -> u64 {
    let parts = split_spec(v, '.');
    if i < parts.len() {
        component_value(parts[i])
    } else {
        0
    }
}

/// The major, minor and patch numbers of a version string.
pub open spec fn version_parts_spec(v: Seq<char>) -> [u64; 3] {
    [version_part(v, 0), version_part(v, 1), version_part(v, 2)]
}

proof fn lemma_digit_prefix(s: Seq<char>, k: int)
    requires
        0 <= k <= s.len(),
        forall|m: int| 0 <= m < k ==> is_digit(#[trigger] s[m]),
        k == s.len() || !is_digit(s[k]),
    ensures
        digit_prefix(s) == s.take(k),
    decreases k,
{
    if k == 0 {
        assert(s.take(0) =~= Seq::<char>::empty());
    } else {
        lemma_digit_prefix(s.drop_first(), k - 1);
        assert(seq![s[0]] + s.drop_first().take(k - 1) =~= s.take(k));
    }
}

/// The value of one version component: its leading ASCII digits read as a `u64`,
/// and 0 where there are none or where they do not fit.
fn component_value_exec(part: &[char]) -> (r: u64)
    ensures
        r == component_value(part@),
{
    let mut k: usize = 0;
    while k < part.len() && '0' <= part[k] && part[k] <= '9'
        invariant
            k <= part.len(),
            forall|m: int| 0 <= m < k ==> is_digit(#[trigger] part@[m]),
        decreases part.len() - k,
    {
        k = k + 1;
    }
    proof {
        lemma_digit_prefix(part@, k as int);
    }
    if k == 0 {
        return 0;
    }
    let ghost d = part@.take(k as int);
    let mut n: u64 = 0;
    let mut over = false;
    let mut i: usize = 0;
    while i < k
        invariant
            i <= k <= part.len(),
            d == part@.take(k as int),
            forall|m: int| 0 <= m < k ==> is_digit(#[trigger] part@[m]),
            !over ==> n as nat == digits_value(d.take(i as int)),
            over ==> digits_value(d.take(i as int)) > u64::MAX,
        decreases k - i,
    {
        let c = part[i];
        assert(is_digit(part@[i as int]));
        let dv = ((c as u32) - 48) as u64;
        assert(d.take(i + 1).drop_last() =~= d.take(i as int));
        assert(d.take(i + 1).last() == c);
        let ghost prev = digits_value(d.take(i as int));
        assert(digits_value(d.take(i + 1)) == prev * 10 + dv);
        if !over {
            if n > (u64::MAX - dv) / 10 {
                assert(prev * 10 + dv > u64::MAX) by (nonlinear_arith)
                    requires
                        prev == n as nat,
                        n > (u64::MAX - dv) / 10,
                        dv <= 9,
                ;
                over = true;
            } else {
                assert(n * 10 + dv <= u64::MAX) by (nonlinear_arith)
                    requires
                        n <= (u64::MAX - dv) / 10,
                        dv <= 9,
                ;
                n = n * 10 + dv;
            }
        } else {
            assert(prev * 10 + dv > u64::MAX) by (nonlinear_arith)
                requires
                    prev > u64::MAX,
            ;
        }
        i = i + 1;
    }
    assert(d.take(k as int) =~= d);
    if over {
        0
    } else {
        n
    }
}

/// Parses up to three dot-separated numeric components; a missing, non-numeric or
/// overflowing component counts as 0, and trailing non-digits in a component
/// (as in `"3-beta"`) are ignored.
pub fn parse_version_parts(v: &str) -> (r: [u64; 3])
    ensures
        r@ == version_parts_spec(v@)@,
{
    let c = chars_of(v);
    let parts = split_chars(&c, '.');
    let mut out = [0u64; 3];
    let mut idx: usize = 0;
    while idx < 3 && idx < parts.len()
        invariant
            idx <= 3,
            views(parts@) == split_spec(v@, '.'),
            out@.len() == 3,
            forall|m: int| 0 <= m < idx ==> out@[m] == version_part(v@, m),
            forall|m: int| idx <= m < 3 ==> out@[m] == 0,
        decreases 3 - idx,
    {
        assert(views(parts@)[idx as int] == parts@[idx as int]@);
        let val = component_value_exec(&parts[idx]);
        out[idx] = val;
        idx = idx + 1;
    }
    assert(out@ =~= version_parts_spec(v@)@);
    out
}

/// The order of two version triples: 1, -1 or 0, comparing major, then minor,
/// then patch.
pub open spec fn cmp_parts(a: [u64; 3], b: [u64; 3]) -> int {
    if a@[0] > b@[0] {
        1
    } else if a@[0] < b@[0] {
        -1
    } else if a@[1] > b@[1] {
        1
    } else if a@[1] < b@[1] {
        -1
    } else if a@[2] > b@[2] {
        1
    } else if a@[2] < b@[2] {
        -1
    } else {
        0
    }
}

/// The order of two version strings.
pub open spec fn version_cmp(a: Seq<char>, b: Seq<char>) -> int {
    cmp_parts(version_parts_spec(a), version_parts_spec(b))
}

/// Compares two version strings numerically: 1 when `a` is newer, -1 when `b` is
/// newer, 0 when they name the same release.
pub fn compare_versions(a: &str, b: &str) -> (r: i32)
    ensures
        r == version_cmp(a@, b@),
{
    let pa = parse_version_parts(a);
    let pb = parse_version_parts(b);
    let mut i: usize = 0;
    while i < 3
        invariant
            i <= 3,
            pa@ == version_parts_spec(a@)@,
            pb@ == version_parts_spec(b@)@,
            forall|m: int| 0 <= m < i ==> pa@[m] == pb@[m],
        decreases 3 - i,
    {
        if pa[i] > pb[i] {
            return 1;
        }
        if pa[i] < pb[i] {
            return -1;
        }
        i = i + 1;
    }
    0
}

/// Comparing versions is antisymmetric: swapping the arguments negates the result.
pub proof fn lemma_compare_antisymmetric(a: Seq<char>, b: Seq<char>)
    ensures
        version_cmp(a, b) == -version_cmp(b, a),
{
}

/// Every version compares equal to itself.
pub proof fn lemma_compare_reflexive(a: Seq<char>)
    ensures
        version_cmp(a, a) == 0,
{
}

/// Comparing versions is transitive: a newer than b and b newer than c make a
/// newer than c.
pub proof fn lemma_compare_transitive(a: Seq<char>, b: Seq<char>, c: Seq<char>)
    requires
        version_cmp(a, b) > 0,
        version_cmp(b, c) > 0,
    ensures
        version_cmp(a, c) > 0,
{
}

/// Two versions compare equal exactly when their three numeric components agree.
pub proof fn lemma_compare_zero_iff_same_parts(a: Seq<char>, b: Seq<char>)
    ensures
        version_cmp(a, b) == 0 <==> version_parts_spec(a)@ == version_parts_spec(b)@,
{
    if version_cmp(a, b) == 0 {
        assert(version_parts_spec(a)@ =~= version_parts_spec(b)@);
    }
    if version_parts_spec(a)@ == version_parts_spec(b)@ {
        assert(version_parts_spec(a)@[0] == version_parts_spec(b)@[0]);
        assert(version_parts_spec(a)@[1] == version_parts_spec(b)@[1]);
        assert(version_parts_spec(a)@[2] == version_parts_spec(b)@[2]);
    }
}


/// The opening of the hidden checksum comment in a release body.
pub open spec fn checksum_marker() -> Seq<char> {
    "<!-- seer-checksums"@
}

/// The checksum that one of `lines`, from index `i` on, gives for `file_name`: the
/// first line of the form `name = hash` whose trimmed name is `file_name`.
pub open spec fn checksum_in_lines(lines: Seq<Seq<char>>, file_name: Seq<char>, i: int) -> Option<
    Seq<char>,
>
    decreases lines.len() - i,
{
    if i < 0 || i >= lines.len() {
        None
    } else {
        match find(lines[i], "="@) {
            Some(k) => if trim(lines[i].take(k)) == file_name {
                Some(trim(lines[i].skip(k + 1)))
            } else {
                checksum_in_lines(lines, file_name, i + 1)
            },
            None => checksum_in_lines(lines, file_name, i + 1),
        }
    }
}

/// The checksum for `file_name` in the `<!-- seer-checksums ... -->` comment of a
/// release body, if the body has that comment and it lists the file.
pub open spec fn checksum_from_body(body: Seq<char>, file_name: Seq<char>) -> Option<Seq<char>> {
    match find(body, checksum_marker()) {
        None => None,
        Some(start) => match find(body.skip(start), "-->"@) {
            None => None,
            Some(end) => checksum_in_lines(
                split_spec(body.subrange(start + checksum_marker().len(), start + end), '\n'),
                file_name,
                0,
            ),
        },
    }
}

proof fn lemma_checksum_lines_trimmed(lines: Seq<Seq<char>>, file_name: Seq<char>, i: int)
    ensures
        checksum_in_lines(lines, file_name, i) matches Some(h) ==> (h.len() > 0 ==> !is_ws(h[0])
            && !is_ws(h.last())),
    decreases lines.len() - i,
{
    if 0 <= i < lines.len() {
        match find(lines[i], "="@) {
            Some(k) => {
                crate::text::lemma_trim_ends(lines[i].skip(k + 1));
                lemma_checksum_lines_trimmed(lines, file_name, i + 1);
            },
            None => lemma_checksum_lines_trimmed(lines, file_name, i + 1),
        }
    }
}

/// A checksum read from a release body never begins or ends with whitespace (a
/// `\r` left by CRLF line ends included), so it can be compared with a digest as
/// it is.
pub proof fn lemma_checksum_has_no_outer_whitespace(body: Seq<char>, file_name: Seq<char>)
    ensures
        checksum_from_body(body, file_name) matches Some(h) ==> (h.len() > 0 ==> !is_ws(h[0])
            && !is_ws(h.last())),
{
    match find(body, checksum_marker()) {
        None => {},
        Some(start) => match find(body.skip(start), "-->"@) {
            None => {},
            Some(end) => lemma_checksum_lines_trimmed(
                split_spec(body.subrange(start + checksum_marker().len(), start + end), '\n'),
                file_name,
                0,
            ),
        },
    }
}

proof fn lemma_comment_end_after_marker(body: Seq<char>, start: int, end: int)
    requires
        occurs_at(body, checksum_marker(), start),
        find(body.skip(start), "-->"@) == Some(end),
    ensures
        checksum_marker().len() <= end,
{
    reveal_strlit("<!-- seer-checksums");
    reveal_strlit("-->");
    let t = body.skip(start);
    lemma_find_from(t, "-->"@, 0);
    assert(occurs_at(t, "-->"@, end));
    if end < checksum_marker().len() {
        let w = t.subrange(end, end + 3);
        assert(w == "-->"@);
        assert(w[0] == '-' && w[2] == '>');
        assert(t[end] == w[0] && t[end + 2] == w[2]);
        assert forall|m: int| 0 <= m < 19 implies t[m] == checksum_marker()[m] by {
            assert(body.subrange(start, start + 19)[m] == checksum_marker()[m]);
        }
        if end + 2 < 19 {
            assert(t[end + 2] == checksum_marker()[end + 2]);
        } else {
            assert(t[end] == checksum_marker()[end]);
        }
    }
}

/// Finds the checksum for `file_name` in the hidden `<!-- seer-checksums ... -->`
/// comment of a release body, where each line reads `name = hash`.
pub fn parse_checksum_from_body(body: &str, file_name: &str) -> (r: Option<String>)
    ensures
        r matches Some(h) ==> checksum_from_body(body@, file_name@) == Some(h@),
        r is None ==> checksum_from_body(body@, file_name@) is None,
{
    let b = chars_of(body);
    let marker = chars_of("<!-- seer-checksums");
    let close = chars_of("-->");
    let start = match find_chars(&b, &marker) {
        Some(k) => k,
        None => return None,
    };
    let rest = slice_chars(&b, start, b.len());
    assert(rest@ =~= b@.skip(start as int));
    let end = match find_chars(&rest, &close) {
        Some(k) => k,
        None => return None,
    };
    proof {
        lemma_find_from(b@, marker@, 0);
        lemma_find_from(rest@, close@, 0);
        lemma_comment_end_after_marker(body@, start as int, end as int);
    }
    let section = slice_chars(&b, start + marker.len(), start + end);
    let lines = split_chars(&section, '\n');
    let name = chars_of(file_name);
    let mut i: usize = 0;
    while i < lines.len()
        invariant
            i <= lines.len(),
            views(lines@) == split_spec(section@, '\n'),
            name@ == file_name@,
            checksum_from_body(body@, file_name@) == checksum_in_lines(views(lines@), file_name@, i as int),
        decreases lines.len() - i,
    {
        let line = &lines[i];
        assert(views(lines@)[i as int] == line@);
        let eq = chars_of("=");
        proof {
            reveal_strlit("=");
        }
        assert(eq@.len() == 1);
        match find_chars(line, &eq) {
            Some(k) => {
                assert(k + 1 <= line@.len());
                let before = slice_chars(line, 0, k);
                let after = slice_chars(line, k + 1, line.len());
                assert(before@ =~= line@.take(k as int));
                assert(after@ =~= line@.skip(k + 1));
                let tb = trim_chars(&before);
                if eq_chars(&tb, &name) {
                    let ta = trim_chars(&after);
                    return Some(string_from(&ta));
                }
            },
            None => {},
        }
        i = i + 1;
    }
    None
}

/// The update-check cache entry `version:severity`, as read back: the trimmed text
/// split at its first colon, with `Minor` where no severity follows. Empty text
/// holds no entry.
pub open spec fn parse_cached_spec(content: Seq<char>) -> Option<(Seq<char>, Severity)> {
    let t = trim(content);
    if t.len() == 0 {
        None
    } else {
        match find(t, ":"@) {
            Some(k) => Some((t.take(k), severity_from_name(t.skip(k + 1)))),
            None => Some((t, Severity::Minor)),
        }
    }
}

/// The text stored in the update-check cache for a version and its severity.
pub open spec fn format_cached_spec(version: Seq<char>, severity: Severity) -> Seq<char> {
    version + ":"@ + severity_name(severity)
}

/// Reads the cached latest release from the cache file's contents.
pub fn parse_cached_latest(content: &str) -> (r: Option<(String, Severity)>)
    ensures
        r matches Some((v, s)) ==> parse_cached_spec(content@) == Some((v@, s)),
        r is None ==> parse_cached_spec(content@) is None,
{
    let c = chars_of(content);
    let t = trim_chars(&c);
    if t.len() == 0 {
        return None;
    }
    let colon = chars_of(":");
    proof {
        reveal_strlit(":");
    }
    match find_chars(&t, &colon) {
        Some(k) => {
            let v = slice_chars(&t, 0, k);
            let rest = slice_chars(&t, k + 1, t.len());
            assert(v@ =~= t@.take(k as int));
            assert(rest@ =~= t@.skip(k + 1));
            let rs = string_from(&rest);
            let sev = Severity::from_str(rs.as_str());
            Some((string_from(&v), sev))
        },
        None => Some((string_from(&t), Severity::Minor)),
    }
}

/// The cache file's contents for the latest release `version` with `severity`.
pub fn format_cached_latest(version: &str, severity: Severity) -> (r: String)
    ensures
        r@ == format_cached_spec(version@, severity),
{
    let mut out: Vec<char> = Vec::new();
    push_str(&mut out, version);
    push_str(&mut out, ":");
    push_str(&mut out, severity.as_str());
    assert(out@ =~= format_cached_spec(version@, severity));
    string_from(&out)
}

proof fn lemma_trim_plain(s: Seq<char>)
    requires
        s.len() > 0,
        !is_ws(s[0]),
        !is_ws(s.last()),
    ensures
        trim(s) == s,
{
}

/// What the cache gives back is what was written to it: a version without a colon
/// and without leading whitespace comes back with its severity.
pub proof fn lemma_cache_round_trip(version: Seq<char>, severity: Severity)
    requires
        !version.contains(':'),
        version.len() == 0 || !is_ws(version[0]),
    ensures
        parse_cached_spec(format_cached_spec(version, severity)) == Some((version, severity)),
{
    reveal_strlit(":");
    reveal_strlit("minor");
    reveal_strlit("major");
    reveal_strlit("critical");
    let text = format_cached_spec(version, severity);
    let name = severity_name(severity);
    assert(text[version.len() as int] == ':');
    assert(!is_ws(text[0]));
    assert(!is_ws(text.last()));
    lemma_trim_plain(text);
    lemma_find_from(text, ":"@, 0);
    assert(occurs_at(text, ":"@, version.len() as int)) by {
        assert(text.subrange(version.len() as int, version.len() + 1 as int) =~= ":"@);
    }
    match find(text, ":"@) {
        Some(k) => {
            if k < version.len() {
                assert(text.subrange(k, k + 1)[0] == ':');
                assert(version[k] == ':');
            }
            assert(k == version.len());
            assert(text.take(k) =~= version);
            assert(text.skip(k + 1) =~= name);
            lemma_severity_name_round_trip(severity);
        },
        None => {},
    }
}

/// Whether a cache entry modified `elapsed_secs` seconds ago (or of unknown age,
/// `None`) is due for a refresh: it is after one day.
pub fn cache_is_stale(elapsed_secs: Option<u64>) -> (r: bool)
    ensures
        r == match elapsed_secs {
            None => true,
            Some(e) => e >= 86400,
        },
{
    match elapsed_secs {
        None => true,
        Some(e) => e >= 86400,
    }
}

/// Whether the `SEER_NO_UPDATE_CHECK` setting turns update checks off: it does for
/// `1` and for `true` in any ASCII case.
pub fn no_update_check(value: Option<&str>) -> (r: bool)
    ensures
        r == match value {
            None => false,
            Some(v) => v@ == "1"@ || ascii_lower_seq(v@) == "true"@,
        },
{
    match value {
        None => false,
        Some(v) => {
            let c = chars_of(v);
            let l = ascii_lowercase_chars(&c);
            eq_str(&c, "1") || eq_str(&l, "true")
        },
    }
}


/// The terminal colour in which an update notice names a severity.
pub open spec fn notice_colour(s: Severity) -> Seq<char> {
    match s {
        Severity::Minor => "\x1b[32m"@,
        Severity::Major => "\x1b[33m"@,
        Severity::Critical => "\x1b[31m"@,
    }
}

/// The notice printed when release `version` is newer than the running `current`.
pub open spec fn notice_text(version: Seq<char>, current: Seq<char>, s: Severity) -> Seq<char> {
    "\nNew "@ + notice_colour(s) + severity_name(s) + "\x1b[0m"@ + " update available: "@ + version
        + " (current "@ + current + "). Run `seer update`"@ + (if s == Severity::Critical {
        " now"@
    } else {
        Seq::empty()
    }) + "."@
}

fn notice_colour_exec(s: Severity) -> (r: &'static str)
    ensures
        r@ == notice_colour(s),
{
    match s {
        Severity::Minor => "\x1b[32m",
        Severity::Major => "\x1b[33m",
        Severity::Critical => "\x1b[31m",
    }
}

/// The update notice for the latest known release, if it is newer than the running
/// version `current` (after `clean_version`).
pub fn update_notice(latest: &Option<(String, Severity)>, current: &str) -> (r: Option<String>)
    ensures
        r is Some <==> (latest matches Some((v, s)) && version_cmp(clean_version_spec(v@), current@)
            > 0),
        r matches Some(t) ==> (latest matches Some((v, s)) && t@ == notice_text(v@, current@, *s)),
{
    match latest {
        None => None,
        Some((version, severity)) => {
            let cleaned = clean_version(version.as_str());
            if compare_versions(cleaned.as_str(), current) > 0 {
                let mut out: Vec<char> = Vec::new();
                push_str(&mut out, "\nNew ");
                push_str(&mut out, notice_colour_exec(*severity));
                push_str(&mut out, severity.as_str());
                push_str(&mut out, "\x1b[0m");
                push_str(&mut out, " update available: ");
                push_str(&mut out, version.as_str());
                push_str(&mut out, " (current ");
                push_str(&mut out, current);
                push_str(&mut out, "). Run `seer update`");
                let ghost before = out@;
                if *severity == Severity::Critical {
                    push_str(&mut out, " now");
                } else {
                    assert(out@ =~= before + Seq::<char>::empty());
                }
                push_str(&mut out, ".");
                assert(out@ =~= notice_text(version@, current@, *severity));
                Some(string_from(&out))
            } else {
                None
            }
        },
    }
}

/// The release tag for a version the user asked for: `v` followed by the cleaned
/// version, so that `0.2.1` and `v0.2.1` both name `v0.2.1`.
pub fn requested_release_tag(version: &str) -> (r: String)
    ensures
        r@ == seq!['v'] + clean_version_spec(version@),
{
    let c = clean_version(version);
    let mut out: Vec<char> = Vec::new();
    out.push('v');
    push_str(&mut out, c.as_str());
    assert(out@ =~= seq!['v'] + clean_version_spec(version@));
    string_from(&out)
}

/// Whether the running version `current` is already at or past release `target_tag`.
pub fn is_up_to_date(target_tag: &str, current: &str) -> (r: bool)
    ensures
        r == (version_cmp(clean_version_spec(target_tag@), current@) <= 0),
{
    let c = clean_version(target_tag);
    compare_versions(c.as_str(), current) <= 0
}

/// Whether an answer to the update prompt agrees: `y` or `yes` in any case, with
/// surrounding whitespace ignored.
pub fn confirms_update(input: &str) -> (r: bool)
    ensures
        r == (lowercase_of(trim(input@)) == "y"@ || lowercase_of(trim(input@)) == "yes"@),
{
    let c = chars_of(input);
    let t = trim_chars(&c);
    let l = to_lowercase_chars(&t);
    eq_str(&l, "y") || eq_str(&l, "yes")
}

/// The name of the installed executable.
pub fn binary_name(windows: bool) -> (r: &'static str)
    ensures
        r@ == (if windows { "seer.exe"@ } else { "seer"@ }),
{
    if windows {
        "seer.exe"
    } else {
        "seer"
    }
}

/// Why no release archive exists for a platform.
#[derive(Debug)]
pub enum PlatformError {
    UnsupportedOs(String),
    UnsupportedArch(String),
}

/// The operating-system name under which releases are published, for Rust's OS name.
pub open spec fn release_os(os: Seq<char>) -> Option<Seq<char>> {
    if os == "macos"@ {
        Some("darwin"@)
    } else if os == "linux"@ {
        Some("linux"@)
    } else if os == "windows"@ {
        Some("windows"@)
    } else {
        None
    }
}

/// The architecture name under which releases are published, for Rust's architecture name.
pub open spec fn release_arch(arch: Seq<char>) -> Option<Seq<char>> {
    if arch == "x86_64"@ {
        Some("amd64"@)
    } else if arch == "aarch64"@ {
        Some("arm64"@)
    } else if arch == "arm"@ {
        Some("armv7"@)
    } else {
        None
    }
}

/// Maps Rust's OS and architecture names to the names in release archive file names.
pub fn detect_platform(os: &str, arch: &str) -> (r: Result<(&'static str, &'static str), PlatformError>)
    ensures
        r matches Ok((o, a)) ==> release_os(os@) == Some(o@) && release_arch(arch@) == Some(a@),
        r matches Err(PlatformError::UnsupportedOs(n)) ==> release_os(os@) is None && n@ == os@,
        r matches Err(PlatformError::UnsupportedArch(n)) ==> release_os(os@) is Some && release_arch(
            arch@,
        ) is None && n@ == arch@,
{
    let o = chars_of(os);
    let a = chars_of(arch);
    let os_name = if eq_str(&o, "macos") {
        "darwin"
    } else if eq_str(&o, "linux") {
        "linux"
    } else if eq_str(&o, "windows") {
        "windows"
    } else {
        return Err(PlatformError::UnsupportedOs(string_from(&o)));
    };
    let arch_name = if eq_str(&a, "x86_64") {
        "amd64"
    } else if eq_str(&a, "aarch64") {
        "arm64"
    } else if eq_str(&a, "arm") {
        "armv7"
    } else {
        return Err(PlatformError::UnsupportedArch(string_from(&a)));
    };
    Ok((os_name, arch_name))
}

/// The file name of the release archive for a platform.
pub fn release_archive_name(os: &str, arch: &str) -> (r: String)
    ensures
        r@ == "seer-"@ + os@ + "-"@ + arch@ + ".tar.gz"@,
{
    let mut out: Vec<char> = Vec::new();
    push_str(&mut out, "seer-");
    push_str(&mut out, os);
    push_str(&mut out, "-");
    push_str(&mut out, arch);
    push_str(&mut out, ".tar.gz");
    string_from(&out)
}

/// The download address of a release file.
pub fn release_download_url(tag: &str, file_name: &str) -> (r: String)
    ensures
        r@ == "https://github.com/SeerApp/cli/releases/download/"@ + tag@ + "/"@ + file_name@,
{
    let mut out: Vec<char> = Vec::new();
    push_str(&mut out, "https://github.com/SeerApp/cli/releases/download/");
    push_str(&mut out, tag);
    push_str(&mut out, "/");
    push_str(&mut out, file_name);
    string_from(&out)
}

/// The GitHub API address of the release with a given tag.
pub fn release_tag_api_url(tag: &str) -> (r: String)
    ensures
        r@ == "https://api.github.com/repos/SeerApp/cli/releases/tags/"@ + tag@,
{
    let mut out: Vec<char> = Vec::new();
    push_str(&mut out, "https://api.github.com/repos/SeerApp/cli/releases/tags/");
    push_str(&mut out, tag);
    string_from(&out)
}

/// The GitHub API address of the latest release.
pub fn latest_release_api_url() -> (r: String)
    ensures
        r@ == "https://api.github.com/repos/SeerApp/cli/releases/latest"@,
{
    let mut out: Vec<char> = Vec::new();
    push_str(&mut out, "https://api.github.com/repos/SeerApp/cli/releases/latest");
    string_from(&out)
}

/// The user agent sent to GitHub by version `version` of the tool.
pub fn user_agent(version: &str) -> (r: String)
    ensures
        r@ == "seer-cli/"@ + version@,
{
    let mut out: Vec<char> = Vec::new();
    push_str(&mut out, "seer-cli/");
    push_str(&mut out, version);
    string_from(&out)
}

/// Why a release description could not be used.
#[derive(Clone, Copy, Debug, PartialEq, Eq, Structural)]
pub enum ReleaseInfoError {
    MissingTagName,
}

/// The tag and severity of a release from its `tag_name` and `body` fields: the tag
/// is required, and a missing body means `Minor`.
pub fn release_info(tag_name: Option<&str>, body: Option<&str>) -> (r: Result<
    (String, Severity),
    ReleaseInfoError,
>)
    ensures
        tag_name is None ==> r == Err::<(String, Severity), _>(ReleaseInfoError::MissingTagName),
        tag_name matches Some(t) ==> r matches Ok((tag, s)) && tag@ == t@ && s == match body {
            Some(b) => severity_of_body(b@),
            None => Severity::Minor,
        },
{
    match tag_name {
        None => Err(ReleaseInfoError::MissingTagName),
        Some(t) => {
            let sev = match body {
                Some(b) => Severity::from_release_body(b),
                None => Severity::Minor,
            };
            let tc = chars_of(t);
            Ok((string_from(&tc), sev))
        },
    }
}

/// Whether a downloaded file's SHA-256 digest matches the expected hexadecimal
/// checksum, compared as lower-case hexadecimal text.
pub fn checksum_matches(digest: &[u8], expected_hex: &str) -> (r: bool)
    ensures
        r == (hex_lower(digest@) == expected_hex@),
{
    let h = hex_lower_chars(digest);
    eq_str(&h, expected_hex)
}


/// The update-check cache file under the configuration directory:
/// `seer/cli/update_check`.
pub fn update_cache_path(config_dir: &str) -> (r: String)
    ensures
        r@ == join_spec(join_spec(join_spec(config_dir@, "seer"@), "cli"@), "update_check"@),
{
    let a = join(config_dir, "seer");
    let b = join(a.as_str(), "cli");
    join(b.as_str(), "update_check")
}


/// The staging path beside the installed executable, where the new one is copied
/// before it replaces the old: the file name with its extension set to `new`.
pub open spec fn staging_path_spec(dest: Seq<char>) -> Seq<char> {
    match (file_stem_spec(dest), parent_spec(dest)) {
        (Some(stem), Some(dir)) => join_spec(dir, stem + ".new"@),
        _ => dest,
    }
}

/// The staging path for replacing the executable at `dest`.
pub fn staging_path(dest: &str) -> (r: String)
    ensures
        r@ == staging_path_spec(dest@),
{
    match (file_stem(dest), parent(dest)) {
        (Some(stem), Some(dir)) => {
            let mut name: Vec<char> = chars_of(stem.as_str());
            push_str(&mut name, ".new");
            let n = string_from(&name);
            join(dir.as_str(), n.as_str())
        },
        _ => string_from(&chars_of(dest)),
    }
}

/// What happened last in `seer update`.
#[derive(Clone, Copy, Debug, PartialEq, Eq, Structural)]
pub enum UpdateEvent {
    /// The release to install is known.
    TagResolved,
    /// The user answered the confirmation prompt.
    Answered(bool),
    /// The archive was downloaded; whether its checksum matched, where the release
    /// publishes one.
    Downloaded { checksum_ok: Option<bool> },
    /// The archive was unpacked; whether it holds the binary.
    Extracted { has_binary: bool },
}

/// What `seer update` does next.
#[derive(Clone, Copy, Debug, PartialEq, Eq, Structural)]
pub enum UpdateAction {
    /// The running version is already the target: stop.
    UpToDate,
    /// Ask the user to confirm.
    Ask,
    /// The user declined: stop.
    Cancel,
    /// Download the release archive.
    Download,
    /// Stop with an error (checksum mismatch, or no binary in the archive).
    Fail,
    /// Unpack the archive.
    Extract,
    /// Install the new binary in place of the running one.
    Install,
}

/// The decisions of `seer update`: nothing to do when up to date, a confirmation
/// prompt unless `--yes`, a checksum that must match before the archive is
/// unpacked, and a binary that must be in the archive before it is installed.
pub fn update_step(yes: bool, up_to_date: bool, event: UpdateEvent) -> (a: UpdateAction)
    ensures
        event == UpdateEvent::TagResolved ==> a == (if up_to_date {
            UpdateAction::UpToDate
        } else if yes {
            UpdateAction::Download
        } else {
            UpdateAction::Ask
        }),
        event == UpdateEvent::Answered(false) ==> a == UpdateAction::Cancel,
        event == UpdateEvent::Answered(true) ==> a == UpdateAction::Download,
        event matches UpdateEvent::Downloaded { checksum_ok } ==> a == (if checksum_ok == Some(
            false,
        ) {
            UpdateAction::Fail
        } else {
            UpdateAction::Extract
        }),
        event matches UpdateEvent::Extracted { has_binary } ==> a == (if has_binary {
            UpdateAction::Install
        } else {
            UpdateAction::Fail
        }),
{
    match event {
        UpdateEvent::TagResolved => if up_to_date {
            UpdateAction::UpToDate
        } else if yes {
            UpdateAction::Download
        } else {
            UpdateAction::Ask
        },
        UpdateEvent::Answered(ok) => if ok {
            UpdateAction::Download
        } else {
            UpdateAction::Cancel
        },
        UpdateEvent::Downloaded { checksum_ok } => match checksum_ok {
            Some(false) => UpdateAction::Fail,
            _ => UpdateAction::Extract,
        },
        UpdateEvent::Extracted { has_binary } => if has_binary {
            UpdateAction::Install
        } else {
            UpdateAction::Fail
        },
    }
}

} // verus!
