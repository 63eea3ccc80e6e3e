//! The collectd reader: where its socket is, and how the lines of the
//! collectd unix-socket protocol read.
use vstd::prelude::*;
use crate::text::{chars_of, find_char, is_whitespace, is_ws, prefix_before, str_equal, string_from_chars, trim_start};

verus! {

/// The socket that collectd listens on by default.
pub const DEFAULT_SOCKET_PATH: &'static str = "/var/run/collectd-unixsock";

/// Whether something exists at the path (`Path::new(path).exists()`). It asks
/// the file system, so nothing is stated of the answer.
#[verifier::external_body]
fn path_exists(path: &str) -> bool {
    std::path::Path::new(path).exists()
}

/// The reader's arguments: the socket path (the program opens the path it
/// names).
pub struct AppArgs {
    pub socket_path: String,
}

/// The socket path that the command line names: its first argument after the
/// program name, else the default.
pub open spec fn socket_path_text(args: Seq<String>) -> Seq<char> {
    if args.len() < 2 {
        DEFAULT_SOCKET_PATH@
    } else {
        args[1]@
    }
}

/// The socket path that the command line names.
pub fn socket_path_of(args: &[String]) -> (r: String)
    ensures
        r@ == socket_path_text(args@),
{
    if args.len() < 2 {
        DEFAULT_SOCKET_PATH.to_owned()
    } else {
        args[1].clone()
    }
}

impl AppArgs {
    /// The arguments of the command line `args` (the program name first),
    /// given whether the socket path they name exists: that path when it
    /// does, else the error that no file is there.
    pub fn build_from(args: &[String], exists: bool) -> (r: Result<AppArgs, &'static str>)
        ensures
            exists ==> (r matches Ok(a) && a.socket_path@ == socket_path_text(args@)),
            !exists ==> (r matches Err(e) && e@ == "No file found at path"@),
    {
        if !exists {
            return Err("No file found at path");
        }
        let socket_path = socket_path_of(args);
        Ok(AppArgs { socket_path })
    }

    /// The arguments of the command line `args` (the program name first):
    /// the socket path, which must exist. Whether it exists is asked of the
    /// file system; whatever the answer, the result is that of `build_from`
    /// for it.
    pub fn build(args: &[String]) -> (r: Result<AppArgs, &'static str>)
        ensures
            match r {
                Ok(a) => a.socket_path@ == socket_path_text(args@),
                Err(e) => e@ == "No file found at path"@,
            },
    {
        let socket_path = socket_path_of(args);
        let exists = path_exists(socket_path.as_str());
        AppArgs::build_from(args, exists)
    }
}

/// Whether a character is an ASCII digit.
pub open spec fn is_digit(c: char) -> bool {
    '0' <= c <= '9'
}

/// The value of a string of decimal digits.
pub open spec fn digits_value(d: Seq<char>) -> nat
    decreases d.len(),
{
    if d.len() == 0 {
        0
    } else {
        digits_value(d.drop_last()) * 10 + (d.last() as nat - '0' as nat) as nat
    }
}

/// Whether every character is an ASCII digit.
pub open spec fn all_digits(d: Seq<char>) -> bool {
    forall|i: int| 0 <= i < d.len() ==> is_digit(#[trigger] d[i])
}

/// The text after an optional leading `+`.
pub open spec fn unsigned_digits(s: Seq<char>) -> Seq<char> {
    if s.len() > 0 && s[0] == '+' {
        s.drop_first()
    } else {
        s
    }
}

/// What `str::parse::<u32>` gives: an optional `+`, then one or more digits
/// whose value fits a `u32`.
pub open spec fn parse_u32_text(s: Seq<char>) -> Option<u32> {
    let d = unsigned_digits(s);
    if d.len() > 0 && all_digits(d) && digits_value(d) <= u32::MAX {
        Some(digits_value(d) as u32)
    } else {
        None
    }
}

proof fn lemma_digits_value_grows(d: Seq<char>, k: int)
    requires
        0 <= k <= d.len(),
        forall|i: int| 0 <= i < d.len() ==> is_digit(#[trigger] d[i]),
    ensures
        digits_value(d.take(k)) <= digits_value(d),
    decreases d.len() - k,
{
    if k < d.len() {
        lemma_digits_value_grows(d, k + 1);
        assert(d.take(k + 1).drop_last() =~= d.take(k));
    } else {
        assert(d.take(k) =~= d);
    }
}

/// Parses a decimal `u32` as `str::parse::<u32>` does.
pub fn parse_u32(s: &Vec<char>, from: usize, to: usize) -> (r: Option<u32>)
    requires
        from <= to <= s@.len(),
    ensures
        r == parse_u32_text(s@.subrange(from as int, to as int)),
{
    let ghost t = s@.subrange(from as int, to as int);
    let start = if from < to && s[from] == '+' {
        from + 1
    } else {
        from
    };
    let ghost d = s@.subrange(start as int, to as int);
    assert(d == unsigned_digits(t));
    if start == to {
        return None;
    }
    let mut value: u64 = 0;
    let mut i = start;
    while i < to
        invariant
            start <= i <= to <= s@.len(),
            start < to,
            d == s@.subrange(start as int, to as int),
            t == s@.subrange(from as int, to as int),
            d == unsigned_digits(t),
            forall|k: int| start <= k < i ==> is_digit(#[trigger] s@[k]),
            value as nat == digits_value(s@.subrange(start as int, i as int)),
            value <= u32::MAX,
        decreases to - i,
    {
        let c = s[i];
        if !('0' <= c && c <= '9') {
            proof {
                assert(!is_digit(d[i - start]));
            }
            return None;
        }
        let digit = (c as u32 - '0' as u32) as u64;
        let next = value * 10 + digit;
        proof {
            assert(s@.subrange(start as int, i + 1).drop_last() =~= s@.subrange(
                start as int,
                i as int,
            ));
        }
        if next > 0xffff_ffff {
            proof {
                let pre = s@.subrange(start as int, i + 1);
                assert(digits_value(pre) == next);
                if all_digits(d) {
                    lemma_digits_value_grows(d, i - start + 1);
                    assert(d.take(i - start + 1) =~= pre);
                }
            }
            return None;
        }
        value = next;
        i += 1;
    }
    proof {
        assert(s@.subrange(start as int, i as int) =~= d);
    }
    Some(value as u32)
}

/// The number of lines that follow a reply's status line: the number before
/// the first space, or zero when the line has no space; `None` when that text
/// is not a `u32` (where the reader cannot go on).
pub open spec fn value_count_text(line: Seq<char>) -> Option<u32> {
    let first = prefix_before(line, ' ');
    if first.len() < line.len() {
        parse_u32_text(first)
    } else {
        Some(0)
    }
}

/// Reads the status line of a reply: how many lines follow.
pub fn value_count(line: &str) -> (r: Option<u32>)
    ensures
        r == value_count_text(line@),
{
    let v = chars_of(line);
    let n = v.len();
    let sp = crate::text::find_char(&v, 0, n, ' ');
    proof {
        assert(v@.subrange(0, n as int) =~= v@);
    }
    if sp < n {
        parse_u32(&v, 0, sp)
    } else {
        Some(0)
    }
}

/// The characters of `s` up to the first white space.
pub open spec fn word(s: Seq<char>) -> Seq<char>
    decreases s.len(),
{
    if s.len() == 0 || is_ws(s[0]) {
        Seq::empty()
    } else {
        seq![s[0]] + word(s.drop_first())
    }
}

/// The first white-space separated token of `s` and what follows it.
pub open spec fn first_token(s: Seq<char>) -> Option<(Seq<char>, Seq<char>)> {
    let t = trim_start(s);
    if t.len() == 0 {
        None
    } else {
        Some((word(t), t.skip(word(t).len() as int)))
    }
}

/// The value on a reply line (`str::split_whitespace`): the token when there
/// is exactly one, else the second token; `None` for a blank line.
pub open spec fn line_value_text(line: Seq<char>) -> Option<Seq<char>> {
    match first_token(line) {
        None => None,
        Some((a, rest)) => match first_token(rest) {
            None => Some(a),
            Some((b, _)) => Some(b),
        },
    }
}

proof fn lemma_word(s: Seq<char>, k: int)
    requires
        0 <= k <= s.len(),
        forall|j: int| 0 <= j < k ==> !is_ws(#[trigger] s[j]),
        k < s.len() ==> is_ws(s[k]),
    ensures
        word(s) == s.take(k),
    decreases k,
{
    if k > 0 {
        lemma_word(s.drop_first(), k - 1);
        assert(s.take(k) =~= seq![s[0]] + s.drop_first().take(k - 1));
    } else {
        assert(s.take(0) =~= Seq::<char>::empty());
    }
}

proof fn lemma_trim_start_from(s: Seq<char>, i: int, j: int)
    requires
        0 <= i <= j <= s.len(),
        forall|k: int| i <= k < j ==> is_ws(#[trigger] s[k]),
        j < s.len() ==> !is_ws(s[j]),
    ensures
        trim_start(s.skip(i)) == s.skip(j),
    decreases j - i,
{
    if i < j {
        lemma_trim_start_from(s, i + 1, j);
        assert(s.skip(i).drop_first() =~= s.skip(i + 1));
    }
}

/// The bounds `[a, b)` of the first token of `v[from..]` when there is one.
fn token_bounds(v: &Vec<char>, from: usize) -> (r: Option<(usize, usize)>)
    requires
        from <= v@.len(),
    ensures
        match first_token(v@.skip(from as int)) {
            None => r is None,
            Some((w, rest)) => r matches Some((a, b)) && from <= a < b <= v@.len() && w == v@.subrange(
                a as int,
                b as int,
            ) && rest == v@.skip(b as int),
        },
{
    let mut a = from;
    while a < v.len() && is_whitespace(v[a])
        invariant
            from <= a <= v@.len(),
            forall|k: int| from <= k < a ==> is_ws(#[trigger] v@[k]),
        decreases v.len() - a,
    {
        a += 1;
    }
    proof {
        lemma_trim_start_from(v@, from as int, a as int);
    }
    if a == v.len() {
        return None;
    }
    let mut b = a;
    while b < v.len() && !is_whitespace(v[b])
        invariant
            a <= b <= v@.len(),
            forall|k: int| a <= k < b ==> !is_ws(#[trigger] v@[k]),
        decreases v.len() - b,
    {
        b += 1;
    }
    proof {
        let t = v@.skip(a as int);
        assert forall|j: int| 0 <= j < b - a implies !is_ws(#[trigger] t[j]) by {
            assert(t[j] == v@[a + j]);
        }
        if b < v.len() {
            assert(t[b - a] == v@[b as int]);
        }
        lemma_word(t, b - a);
        assert(t.take(b - a) =~= v@.subrange(a as int, b as int));
        assert(t.skip(b - a) =~= v@.skip(b as int));
        assert(!is_ws(t[0]));
    }
    Some((a, b))
}

/// Reads one reply line: the value it carries, or `None` for a blank line
/// (where the reader cannot go on).
pub fn line_value(line: &str) -> (r: Option<String>)
    ensures
        match line_value_text(line@) {
            Some(t) => r matches Some(s) && s@ == t,
            None => r is None,
        },
{
    let v = chars_of(line);
    proof {
        assert(v@.skip(0) =~= v@);
    }
    match token_bounds(&v, 0) {
        None => None,
        Some((a, b)) => match token_bounds(&v, b) {
            None => Some(string_from_chars(&v, a, b)),
            Some((c, d)) => Some(string_from_chars(&v, c, d)),
        },
    }
}

// ---------------------------------------------------------------------------
// Grouping values by plugin
// ---------------------------------------------------------------------------

/// The pieces of `s` between `/` characters (`str::split('/')`).
pub open spec fn slash_parts(s: Seq<char>) -> Seq<Seq<char>>
    decreases s.len(),
{
    let first = prefix_before(s, '/');
    if first.len() < s.len() {
        seq![first] + slash_parts(s.skip(first.len() as int + 1))
    } else {
        seq![s]
    }
}

/// The texts of a list of strings.
pub open spec fn string_views(v: Seq<String>) -> Seq<Seq<char>> {
    v.map_values(|s: String| s@)
}

/// Splits `s` at every `/`.
pub fn split_slash(s: &str) -> (r: Vec<String>)
    ensures
        string_views(r@) == slash_parts(s@),
{
    let v = chars_of(s);
    let n = v.len();
    let mut parts: Vec<String> = Vec::new();
    let mut start: usize = 0;
    proof {
        assert(v@.skip(0) =~= v@);
        assert(string_views(parts@) + slash_parts(v@.skip(0)) =~= slash_parts(v@));
    }
    loop
        invariant
            n == v@.len(),
            v@ == s@,
            start <= n,
            string_views(parts@) + slash_parts(v@.skip(start as int)) == slash_parts(v@),
        decreases n - start,
    {
        let e = find_char(&v, start, n, '/');
        let piece = string_from_chars(&v, start, e);
        let ghost t = v@.skip(start as int);
        let ghost before = parts@;
        proof {
            assert(v@.subrange(start as int, n as int) =~= t);
        }
        parts.push(piece);
        proof {
            assert(string_views(parts@) =~= string_views(before).push(piece@));
        }
        if e == n {
            proof {
                assert(piece@ =~= t);
                assert(slash_parts(t) == seq![t]);
                assert(string_views(parts@) =~= string_views(before) + slash_parts(t));
            }
            return parts;
        }
        proof {
            assert(t.skip(e - start + 1) =~= v@.skip(e + 1));
            assert(slash_parts(t) == seq![piece@] + slash_parts(v@.skip(e + 1)));
            assert(string_views(parts@) + slash_parts(v@.skip(e + 1)) =~= string_views(before)
                + slash_parts(t));
        }
        start = e + 1;
    }
}

/// The values of one plugin: the host of its first metric, the plugin, the
/// instance of each metric, and where each metric's value is kept.
#[derive(Debug, PartialEq)]
pub struct MetricGroup {
    pub host: String,
    pub plugin: String,
    pub plugin_instances: Vec<String>,
    pub values: Vec<usize>,
}

/// A group as (host, plugin, instances, value positions).
pub open spec fn group_view(g: MetricGroup) -> (Seq<char>, Seq<char>, Seq<Seq<char>>, Seq<usize>) {
    (g.host@, g.plugin@, string_views(g.plugin_instances@), g.values@)
}

/// The views of a list of groups.
pub open spec fn groups_view(gs: Seq<MetricGroup>) -> Seq<(Seq<char>, Seq<char>, Seq<Seq<char>>, Seq<usize>)> {
    gs.map_values(|g: MetricGroup| group_view(g))
}

/// The position of the first group of `plugin`, if there is one.
pub open spec fn first_group(gs: Seq<(Seq<char>, Seq<char>, Seq<Seq<char>>, Seq<usize>)>, plugin: Seq<char>) -> Option<int>
    decreases gs.len(),
{
    if gs.len() == 0 {
        None
    } else if gs[0].1 == plugin {
        Some(0)
    } else {
        match first_group(gs.drop_first(), plugin) {
            Some(k) => Some(k + 1),
            None => None,
        }
    }
}

/// The groups after adding the metric `host/plugin/instance` whose value is
/// kept at `value_index`: to the first group of its plugin, or as a new group
/// at the end.
pub open spec fn grouped(
    gs: Seq<(Seq<char>, Seq<char>, Seq<Seq<char>>, Seq<usize>)>,
    parts: Seq<Seq<char>>,
    value_index: usize,
) -> Seq<(Seq<char>, Seq<char>, Seq<Seq<char>>, Seq<usize>)> {
    match first_group(gs, parts[1]) {
        Some(i) => gs.update(i, (gs[i].0, gs[i].1, gs[i].2.push(parts[2]), gs[i].3.push(value_index))),
        None => gs.push((parts[0], parts[1], seq![parts[2]], seq![value_index])),
    }
}

proof fn lemma_first_group(
    gs: Seq<(Seq<char>, Seq<char>, Seq<Seq<char>>, Seq<usize>)>,
    plugin: Seq<char>,
    i: int,
)
    requires
        0 <= i <= gs.len(),
        forall|j: int| 0 <= j < i ==> gs[j].1 != plugin,
        i < gs.len() ==> gs[i].1 == plugin,
    ensures
        first_group(gs, plugin) == if i < gs.len() {
            Some(i)
        } else {
            None::<int>
        },
    decreases i,
{
    if i > 0 {
        let rest = gs.drop_first();
        assert forall|j: int| 0 <= j < i - 1 implies rest[j].1 != plugin by {
            assert(rest[j] == gs[j + 1]);
        }
        lemma_first_group(rest, plugin, i - 1);
    }
}

/// Adds a metric named `host/plugin/instance`, whose value is kept at
/// `value_index`, to the group of its plugin (a new group when there is none
/// yet). A name that is not three pieces is not added.
pub fn add_metric(groups: &mut Vec<MetricGroup>, metric: &str, value_index: usize) -> (added: bool)
    ensures
        added == (slash_parts(metric@).len() == 3),
        added ==> groups_view(final(groups)@) == grouped(
            groups_view(old(groups)@),
            slash_parts(metric@),
            value_index,
        ),
        !added ==> groups_view(final(groups)@) == groups_view(old(groups)@),
{
    let parts = split_slash(metric);
    if parts.len() != 3 {
        return false;
    }
    let ghost ps = string_views(parts@);
    let ghost gv = groups_view(groups@);
    assert(ps[1] == parts@[1]@ && ps[0] == parts@[0]@ && ps[2] == parts@[2]@);
    let mut i: usize = 0;
    while i < groups.len() && !str_equal(groups[i].plugin.as_str(), parts[1].as_str())
        invariant
            0 <= i <= groups@.len(),
            gv == groups_view(groups@),
            parts@.len() == 3,
            forall|j: int| 0 <= j < i ==> #[trigger] gv[j].1 != parts@[1]@,
        decreases groups.len() - i,
    {
        i += 1;
    }
    proof {
        lemma_first_group(gv, ps[1], i as int);
    }
    if i < groups.len() {
        let mut g = groups.remove(i);
        let ghost old_g = group_view(g);
        let ghost inst_before = g.plugin_instances@;
        g.plugin_instances.push(parts[2].clone());
        g.values.push(value_index);
        proof {
            assert(string_views(g.plugin_instances@) =~= string_views(inst_before).push(ps[2]));
            assert(gv[i as int] == old_g);
        }
        groups.insert(i, g);
        proof {
            assert(groups_view(groups@) =~= gv.update(
                i as int,
                (old_g.0, old_g.1, old_g.2.push(ps[2]), old_g.3.push(value_index)),
            ));
        }
    } else {
        let g = MetricGroup {
            host: parts[0].clone(),
            plugin: parts[1].clone(),
            plugin_instances: vec![parts[2].clone()],
            values: vec![value_index],
        };
        proof {
            assert(string_views(g.plugin_instances@) =~= seq![ps[2]]);
            assert(g.values@ =~= seq![value_index]);
        }
        let ghost before = groups@;
        groups.push(g);
        proof {
            assert(groups_view(groups@) =~= gv.push((ps[0], ps[1], seq![ps[2]], seq![value_index])));
        }
    }
    true
}

} // verus!
