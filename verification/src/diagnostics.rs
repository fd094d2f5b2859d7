//! The diagnostics report: its layout, the tail of the daemon log that goes
//! into it, escape-sequence stripping and the redaction of endpoints.

use vstd::prelude::*;
use crate::text::{
    occurs_at, chars_of, is_blank, push_char, replace_all, replaced, str_is_blank, string_of, strip_prefixes,
    trim_start_matches,
};

verus! {

/// Text that `write_header` appends for a section called `name`.
pub open spec fn header_text(name: Seq<char>) -> Seq<char> {
    "\n|\n| "@ + name + "\n| ------------------------------\n"@
}

/// Appends a section header: an empty `|` line, `| name` and a rule.
pub fn write_header(output: &mut String, name: &str)
    ensures
        final(output)@ == old(output)@ + header_text(name@),
{
    output.append("\n|\n| ");
    output.append(name);
    output.append("\n| ------------------------------\n");
}

/// The spaces that right-align a label of `len` characters in 20 columns.
pub open spec fn label_padding(len: nat) -> Seq<char> {
    Seq::new(if len < 20 { (20 - len) as nat } else { 0 }, |i: int| ' ')
}

/// Text that `write_line` appends: the label right-aligned in 20 columns,
/// `: `, the value and a line break.
pub open spec fn line_text(name: Seq<char>, value: Seq<char>) -> Seq<char> {
    label_padding(name.len()) + name + ": "@ + value + "\n"@
}

/// Appends `name: value` with `name` right-aligned in 20 columns.
pub fn write_line(output: &mut String, name: &str, value: &str)
    ensures
        final(output)@ == old(output)@ + line_text(name@, value@),
{
    let len = chars_of(name).len();
    let ghost start = output@;
    if len < 20 {
        let mut k: usize = 0;
        while k < 20 - len
            invariant
                len < 20,
                k <= 20 - len,
                output@ == start + Seq::new(k as nat, |i: int| ' '),
            decreases 20 - len - k,
        {
            push_char(output, ' ');
            assert(Seq::new((k + 1) as nat, |i: int| ' ') =~= Seq::new(k as nat, |i: int| ' ').push(
                ' ',
            ));
            k += 1;
        }
    }
    assert(output@ =~= start + label_padding(name@.len()));
    output.append(name);
    output.append(": ");
    output.append(value);
    output.append("\n");
    assert(final(output)@ =~= start + line_text(name@, value@)) by {
        assert(output@ =~= start + label_padding(name@.len()) + name@ + ": "@ + value@ + "\n"@);
    }
}

/// Whether `c` is an ASCII letter.
pub open spec fn is_ascii_letter(c: char) -> bool {
    ('a' <= c && c <= 'z') || ('A' <= c && c <= 'Z')
}

/// `s` with terminal escape sequences removed: from an ESC character up to
/// and including the next ASCII letter (or the end of the text).
/// `in_escape` says whether an escape sequence is already open.
pub open spec fn strip_escapes(s: Seq<char>, in_escape: bool) -> Seq<char>
    decreases s.len(),
{
    if s.len() == 0 {
        s
    } else if in_escape {
        strip_escapes(s.drop_first(), !is_ascii_letter(s[0]))
    } else if s[0] == '\u{1b}' {
        strip_escapes(s.drop_first(), true)
    } else {
        seq![s[0]] + strip_escapes(s.drop_first(), false)
    }
}

/// Removes terminal escape sequences (colour codes) from a log line.
pub fn strip_ansi_escapes(line: &str) -> (r: String)
    ensures
        r@ == strip_escapes(line@, false),
{
    let v = chars_of(line);
    let mut out: Vec<char> = Vec::new();
    let mut in_escape = false;
    let mut i: usize = 0;
    assert(v@.skip(0) =~= v@);
    while i < v.len()
        invariant
            i <= v@.len(),
            strip_escapes(v@, false) == out@ + strip_escapes(v@.skip(i as int), in_escape),
        decreases v@.len() - i,
    {
        let c = v[i];
        let ghost rest = v@.skip(i as int);
        assert(rest.drop_first() =~= v@.skip(i + 1));
        assert(rest[0] == c);
        if in_escape {
            in_escape = !(('a' <= c && c <= 'z') || ('A' <= c && c <= 'Z'));
        } else if c == '\u{1b}' {
            in_escape = true;
        } else {
            let ghost before = out@;
            out.push(c);
            assert(out@ + strip_escapes(v@.skip(i + 1), false) =~= before + (seq![c]
                + strip_escapes(v@.skip(i + 1), false)));
        }
        i += 1;
    }
    assert(v@.skip(i as int) =~= Seq::<char>::empty());
    assert(out@ + Seq::<char>::empty() =~= out@);
    string_of(&out)
}

/// A line without escape characters comes out of the stripping unchanged.
pub proof fn lemma_strip_plain_line(line: Seq<char>)
    requires
        forall|i: int| 0 <= i < line.len() ==> line[i] != '\u{1b}',
    ensures
        strip_escapes(line, false) == line,
    decreases line.len(),
{
    if line.len() > 0 {
        let t = line.drop_first();
        assert forall|i: int| 0 <= i < t.len() implies t[i] != '\u{1b}' by {
            assert(t[i] == line[i + 1]);
        }
        lemma_strip_plain_line(t);
        assert(seq![line[0]] + t =~= line);
    }
}

/// The lines of `lines` that hold more than white space, in order.
pub open spec fn non_blank_lines(lines: Seq<Seq<char>>) -> Seq<Seq<char>>
    decreases lines.len(),
{
    if lines.len() == 0 {
        lines
    } else if is_blank(lines.last()) {
        non_blank_lines(lines.drop_last())
    } else {
        non_blank_lines(lines.drop_last()).push(lines.last())
    }
}

/// The lines that the report keeps of the log: the non-blank ones, and of
/// those only the last `count` when `count` is positive (all of them when it
/// is zero).
pub open spec fn kept_log_lines(lines: Seq<Seq<char>>, count: nat) -> Seq<Seq<char>> {
    let kept = non_blank_lines(lines);
    if count == 0 || kept.len() <= count {
        kept
    } else {
        kept.skip(kept.len() - count)
    }
}

/// The views of a list of strings.
pub open spec fn views_of(v: Seq<String>) -> Seq<Seq<char>> {
    v.map_values(|s: String| s@)
}

/// Selects the log lines for the report out of the lines of the log file,
/// in file order.
pub fn tail_log_lines(lines: Vec<String>, count: usize) -> (r: Vec<String>)
    ensures
        views_of(r@) == kept_log_lines(views_of(lines@), count as nat),
{
    let mut kept: Vec<String> = Vec::new();
    let mut i: usize = 0;
    while i < lines.len()
        invariant
            i <= lines@.len(),
            views_of(kept@) == non_blank_lines(views_of(lines@.take(i as int))),
        decreases lines@.len() - i,
    {
        let ghost prefix = views_of(lines@.take(i as int));
        let ghost next = views_of(lines@.take(i + 1));
        assert(next.drop_last() =~= prefix);
        assert(next.last() == lines@[i as int]@);
        if !str_is_blank(lines[i].as_str()) {
            kept.push(lines[i].clone());
            assert(views_of(kept@) =~= non_blank_lines(prefix).push(lines@[i as int]@));
        }
        i += 1;
    }
    assert(lines@.take(lines@.len() as int) =~= lines@);
    if count == 0 || kept.len() <= count {
        kept
    } else {
        let start = kept.len() - count;
        let mut out: Vec<String> = Vec::new();
        let mut k: usize = start;
        while k < kept.len()
            invariant
                start <= k <= kept@.len(),
                views_of(out@) == views_of(kept@).subrange(start as int, k as int),
            decreases kept@.len() - k,
        {
            let ghost before = out@;
            out.push(kept[k].clone());
            assert(out@ == before.push(kept@[k as int]));
            assert(views_of(out@) =~= views_of(before).push(kept@[k as int]@));
            assert(views_of(out@) =~= views_of(kept@).subrange(start as int, k + 1));
            k += 1;
        }
        assert(views_of(kept@).subrange(start as int, kept@.len() as int) =~= views_of(
            kept@,
        ).skip(start as int));
        out
    }
}


/// The character of the decimal digit `d`.
pub open spec fn digit_char(d: nat) -> char {
    ((48 + d) as u8) as char
}

/// Decimal representation of `n`, without leading zeros.
pub open spec fn decimal(n: nat) -> Seq<char>
    decreases n,
{
    if n < 10 {
        seq![digit_char(n)]
    } else {
        decimal(n / 10) + seq![digit_char(n % 10)]
    }
}

/// The decimal representation of `n`, as `n.to_string()` gives it.
pub fn decimal_string(n: u64) -> (r: String)
    ensures
        r@ == decimal(n as nat),
    decreases n,
{
    if n < 10 {
        let mut out = String::new();
        push_char(&mut out, ((48 + n) as u8) as char);
        assert(out@ =~= seq![digit_char(n as nat)]);
        out
    } else {
        let mut out = decimal_string(n / 10);
        push_char(&mut out, ((48 + n % 10) as u8) as char);
        out
    }
}

/// `true` or `false`, as a `bool` is displayed.
pub open spec fn bool_text(b: bool) -> Seq<char> {
    if b {
        "true"@
    } else {
        "false"@
    }
}

/// The text of a `bool`.
pub fn bool_string(b: bool) -> (r: &'static str)
    ensures
        r@ == bool_text(b),
{
    if b {
        "true"
    } else {
        "false"
    }
}

/// The text of an optional value, `unknown` when it is absent.
pub open spec fn or_unknown(v: Option<Seq<char>>) -> Seq<char> {
    match v {
        Some(s) => s,
        None => "unknown"@,
    }
}

/// What the diagnostics report tells of the daemon and its host, gathered by
/// the caller (versions, configuration, clock).
pub struct DiagnosticsInfo {
    pub version: String,
    pub git_commit: String,
    pub docker_version: Option<String>,
    pub kernel_version: Option<String>,
    pub os: Option<String>,
    pub remote: String,
    pub api_host: String,
    pub api_port: u16,
    pub ssl_enabled: bool,
    pub ssl_cert: String,
    pub ssl_key: String,
    pub sftp_bind_address: String,
    pub sftp_bind_port: u16,
    pub sftp_read_only: bool,
    pub sftp_key_algorithm: String,
    pub sftp_disable_password_auth: bool,
    pub root_directory: String,
    pub log_directory: String,
    pub data_directory: String,
    pub archive_directory: String,
    pub backup_directory: String,
    pub username: String,
    pub server_time: String,
    pub timezone: String,
    pub debug: bool,
}

/// The view of an optional string.
pub open spec fn opt_view(v: Option<String>) -> Option<Seq<char>> {
    match v {
        Some(s) => Some(s@),
        None => None,
    }
}

/// `address : port`, as the report shows a listening socket.
pub open spec fn socket_text(address: Seq<char>, port: u16) -> Seq<char> {
    address + " : "@ + decimal(port as nat)
}

/// The versions section of the report.
pub open spec fn versions_section(info: DiagnosticsInfo) -> Seq<char> {
    header_text("versions"@)
    + line_text("cyrogopus"@, info.version@ + ":"@ + info.git_commit@)
    + line_text("docker"@, or_unknown(opt_view(info.docker_version)))
    + line_text("kernel"@, or_unknown(opt_view(info.kernel_version)))
    + line_text("os"@, or_unknown(opt_view(info.os)))
}

/// The panel and webserver lines of the configuration section.
pub open spec fn api_block(info: DiagnosticsInfo) -> Seq<char> {
    line_text("panel location"@, info.remote@)
    + "\n"@
    + line_text("internal webserver"@, socket_text(info.api_host@, info.api_port))
    + line_text("ssl enabled"@, bool_text(info.ssl_enabled))
    + line_text("ssl certificate"@, info.ssl_cert@)
    + line_text("ssl key"@, info.ssl_key@)
}

/// The sftp lines of the configuration section.
pub open spec fn sftp_block(info: DiagnosticsInfo) -> Seq<char> {
    "\n"@
    + line_text("sftp server"@, socket_text(info.sftp_bind_address@, info.sftp_bind_port))
    + line_text("sftp read-only"@, bool_text(info.sftp_read_only))
    + line_text("sftp key algorithm"@, info.sftp_key_algorithm@)
    + line_text("sftp password auth"@, bool_text(!info.sftp_disable_password_auth))
}

/// The directory lines of the configuration section.
pub open spec fn directories_block(info: DiagnosticsInfo) -> Seq<char> {
    "\n"@
    + line_text("root directory"@, info.root_directory@)
    + line_text("logs directory"@, info.log_directory@)
    + line_text("data directory"@, info.data_directory@)
    + line_text("archive directory"@, info.archive_directory@)
    + line_text("backup directory"@, info.backup_directory@)
}

/// The user, clock and debug lines of the configuration section.
pub open spec fn host_block(info: DiagnosticsInfo) -> Seq<char> {
    "\n"@
    + line_text("username"@, info.username@)
    + line_text("server time"@, info.server_time@)
    + line_text("timezone"@, info.timezone@)
    + line_text("debug mode"@, bool_text(info.debug))
}

/// The configuration section of the report.
pub open spec fn configuration_section(info: DiagnosticsInfo) -> Seq<char> {
    header_text("cyrogopus configuration"@) + api_block(info) + sftp_block(info)
        + directories_block(info) + host_block(info)
}

/// The log lines with their escape sequences removed, one after another.
pub open spec fn stripped_lines(lines: Seq<Seq<char>>) -> Seq<char>
    decreases lines.len(),
{
    if lines.len() == 0 {
        Seq::empty()
    } else {
        stripped_lines(lines.drop_last()) + strip_escapes(lines.last(), false)
    }
}

/// The whole report: title, versions, configuration and the log lines.
pub open spec fn report_text(info: DiagnosticsInfo, log_lines: Seq<Seq<char>>) -> Seq<char> {
    "cyrogopus - diagnostics report\n"@
    + versions_section(info)
    + configuration_section(info)
    + header_text("latest cyrogopus logs"@)
    + stripped_lines(log_lines)
}

/// Whether `t` occurs somewhere in `s`.
pub open spec fn contains_text(s: Seq<char>, t: Seq<char>) -> bool {
    exists|i: int| occurs_at(s, i, t)
}

broadcast proof fn lemma_contains_self(t: Seq<char>)
    ensures
        #[trigger] contains_text(t, t),
{
    assert(t.subrange(0, t.len() as int) =~= t);
    assert(occurs_at(t, 0, t));
}

broadcast proof fn lemma_contains_before(s: Seq<char>, b: Seq<char>, t: Seq<char>)
    requires
        contains_text(s, t),
    ensures
        #[trigger] contains_text(s + b, t),
{
    let i = choose|i: int| occurs_at(s, i, t);
    assert((s + b).subrange(i, i + t.len()) =~= s.subrange(i, i + t.len()));
    assert(occurs_at(s + b, i, t));
}

broadcast proof fn lemma_contains_after(a: Seq<char>, s: Seq<char>, t: Seq<char>)
    requires
        contains_text(s, t),
    ensures
        #[trigger] contains_text(a + s, t),
{
    let i = choose|i: int| occurs_at(s, i, t);
    assert((a + s).subrange(a.len() + i, a.len() + i + t.len()) =~= s.subrange(i, i + t.len()));
    assert(occurs_at(a + s, a.len() + i, t));
}

/// Every line of the versions and configuration sections shows its own
/// field of `info`, under its own label, whatever the log lines are.
pub proof fn lemma_report_shows_each_field(info: DiagnosticsInfo, log_lines: Seq<Seq<char>>)
    ensures
        contains_text(report_text(info, log_lines), line_text("cyrogopus"@, info.version@ + ":"@ + info.git_commit@)),
        contains_text(report_text(info, log_lines), line_text("docker"@, match info.docker_version {
            Some(v) => v@,
            None => "unknown"@,
        })),
        contains_text(report_text(info, log_lines), line_text("kernel"@, match info.kernel_version {
            Some(v) => v@,
            None => "unknown"@,
        })),
        contains_text(report_text(info, log_lines), line_text("os"@, match info.os {
            Some(v) => v@,
            None => "unknown"@,
        })),
        contains_text(report_text(info, log_lines), line_text("panel location"@, info.remote@)),
        contains_text(report_text(info, log_lines), line_text("internal webserver"@, info.api_host@ + " : "@ + decimal(info.api_port as nat))),
        contains_text(report_text(info, log_lines), line_text("ssl enabled"@, if info.ssl_enabled { "true"@ } else { "false"@ })),
        contains_text(report_text(info, log_lines), line_text("ssl certificate"@, info.ssl_cert@)),
        contains_text(report_text(info, log_lines), line_text("ssl key"@, info.ssl_key@)),
        contains_text(report_text(info, log_lines), line_text("sftp server"@, info.sftp_bind_address@ + " : "@ + decimal(info.sftp_bind_port as nat))),
        contains_text(report_text(info, log_lines), line_text("sftp read-only"@, if info.sftp_read_only { "true"@ } else { "false"@ })),
        contains_text(report_text(info, log_lines), line_text("sftp key algorithm"@, info.sftp_key_algorithm@)),
        contains_text(report_text(info, log_lines), line_text("sftp password auth"@, if info.sftp_disable_password_auth { "false"@ } else { "true"@ })),
        contains_text(report_text(info, log_lines), line_text("root directory"@, info.root_directory@)),
        contains_text(report_text(info, log_lines), line_text("logs directory"@, info.log_directory@)),
        contains_text(report_text(info, log_lines), line_text("data directory"@, info.data_directory@)),
        contains_text(report_text(info, log_lines), line_text("archive directory"@, info.archive_directory@)),
        contains_text(report_text(info, log_lines), line_text("backup directory"@, info.backup_directory@)),
        contains_text(report_text(info, log_lines), line_text("username"@, info.username@)),
        contains_text(report_text(info, log_lines), line_text("server time"@, info.server_time@)),
        contains_text(report_text(info, log_lines), line_text("timezone"@, info.timezone@)),
        contains_text(report_text(info, log_lines), line_text("debug mode"@, if info.debug { "true"@ } else { "false"@ })),
{
    broadcast use {lemma_contains_self, lemma_contains_before, lemma_contains_after};
    reveal_strlit("true");
    reveal_strlit("false");
    reveal_strlit("unknown");
}

fn write_value_line(output: &mut String, name: &str, value: &Option<String>)
    ensures
        final(output)@ == old(output)@ + line_text(name@, or_unknown(opt_view(*value))),
{
    match value {
        Some(v) => write_line(output, name, v.as_str()),
        None => write_line(output, name, "unknown"),
    }
}

fn write_socket_line(output: &mut String, name: &str, address: &str, port: u16)
    ensures
        final(output)@ == old(output)@ + line_text(name@, socket_text(address@, port)),
{
    let mut value = String::new();
    value.append(address);
    value.append(" : ");
    let digits = decimal_string(port as u64);
    value.append(digits.as_str());
    assert(value@ =~= socket_text(address@, port));
    write_line(output, name, value.as_str());
}

fn write_versions(output: &mut String, info: &DiagnosticsInfo)
    ensures
        final(output)@ == old(output)@ + versions_section(*info),
{
    let ghost start = output@;
    write_header(output, "versions");
    let mut version = String::new();
    version.append(info.version.as_str());
    version.append(":");
    version.append(info.git_commit.as_str());
    write_line(output, "cyrogopus", version.as_str());
    write_value_line(output, "docker", &info.docker_version);
    write_value_line(output, "kernel", &info.kernel_version);
    write_value_line(output, "os", &info.os);
    assert(output@ =~= start + versions_section(*info));
}

fn write_api_block(output: &mut String, info: &DiagnosticsInfo)
    ensures
        final(output)@ == old(output)@ + api_block(*info),
{
    let ghost start = output@;
    write_line(output, "panel location", info.remote.as_str());
    output.append("\n");
    write_socket_line(output, "internal webserver", info.api_host.as_str(), info.api_port);
    write_line(output, "ssl enabled", bool_string(info.ssl_enabled));
    write_line(output, "ssl certificate", info.ssl_cert.as_str());
    write_line(output, "ssl key", info.ssl_key.as_str());
    assert(output@ =~= start + api_block(*info));
}

fn write_sftp_block(output: &mut String, info: &DiagnosticsInfo)
    ensures
        final(output)@ == old(output)@ + sftp_block(*info),
{
    let ghost start = output@;
    output.append("\n");
    write_socket_line(output, "sftp server", info.sftp_bind_address.as_str(), info.sftp_bind_port);
    write_line(output, "sftp read-only", bool_string(info.sftp_read_only));
    write_line(output, "sftp key algorithm", info.sftp_key_algorithm.as_str());
    write_line(output, "sftp password auth", bool_string(!info.sftp_disable_password_auth));
    assert(output@ =~= start + sftp_block(*info));
}

fn write_directories_block(output: &mut String, info: &DiagnosticsInfo)
    ensures
        final(output)@ == old(output)@ + directories_block(*info),
{
    let ghost start = output@;
    output.append("\n");
    write_line(output, "root directory", info.root_directory.as_str());
    write_line(output, "logs directory", info.log_directory.as_str());
    write_line(output, "data directory", info.data_directory.as_str());
    write_line(output, "archive directory", info.archive_directory.as_str());
    write_line(output, "backup directory", info.backup_directory.as_str());
    assert(output@ =~= start + directories_block(*info));
}

fn write_host_block(output: &mut String, info: &DiagnosticsInfo)
    ensures
        final(output)@ == old(output)@ + host_block(*info),
{
    let ghost start = output@;
    output.append("\n");
    write_line(output, "username", info.username.as_str());
    write_line(output, "server time", info.server_time.as_str());
    write_line(output, "timezone", info.timezone.as_str());
    write_line(output, "debug mode", bool_string(info.debug));
    assert(output@ =~= start + host_block(*info));
}

fn write_log_lines(output: &mut String, log_lines: &Vec<String>)
    ensures
        final(output)@ == old(output)@ + stripped_lines(views_of(log_lines@)),
{
    let ghost logs_start = output@;
    let mut i: usize = 0;
    assert(stripped_lines(views_of(log_lines@.take(0))) =~= Seq::<char>::empty());
    assert(output@ =~= logs_start + Seq::<char>::empty());
    while i < log_lines.len()
        invariant
            i <= log_lines@.len(),
            output@ == logs_start + stripped_lines(views_of(log_lines@.take(i as int))),
        decreases log_lines@.len() - i,
    {
        let line = strip_ansi_escapes(log_lines[i].as_str());
        output.append(line.as_str());
        let ghost next = views_of(log_lines@.take(i + 1));
        assert(next.drop_last() =~= views_of(log_lines@.take(i as int)));
        assert(next.last() == log_lines@[i as int]@);
        assert(output@ =~= logs_start + stripped_lines(next));
        i += 1;
    }
    assert(log_lines@.take(log_lines@.len() as int) =~= log_lines@);
}

/// Lays out the diagnostics report for `info`, followed by `log_lines` with
/// their escape sequences removed.
pub fn render_report(info: &DiagnosticsInfo, log_lines: &Vec<String>) -> (r: String)
    ensures
        r@ == report_text(*info, views_of(log_lines@)),
{
    let mut output = String::new();
    output.append("cyrogopus - diagnostics report\n");
    write_versions(&mut output, info);
    write_header(&mut output, "cyrogopus configuration");
    write_api_block(&mut output, info);
    write_sftp_block(&mut output, info);
    write_directories_block(&mut output, info);
    write_host_block(&mut output, info);
    write_header(&mut output, "latest cyrogopus logs");
    write_log_lines(&mut output, log_lines);
    assert(output@ =~= report_text(*info, views_of(log_lines@)));
    output
}

/// What stands for the panel location in the report when endpoints are
/// redacted: the location without its leading `https://` and `http://`.
pub open spec fn panel_host(remote: Seq<char>) -> Seq<char> {
    strip_prefixes(strip_prefixes(remote, "https://"@), "http://"@)
}

/// The report with the endpoints replaced by `{redacted}`: the panel
/// location, the webserver and sftp addresses, and the certificate and key
/// paths when they are set.
pub open spec fn redacted_text(
    report: Seq<char>,
    remote: Seq<char>,
    api_host: Seq<char>,
    sftp_bind_address: Seq<char>,
    ssl_cert: Seq<char>,
    ssl_key: Seq<char>,
) -> Seq<char> {
    let r1 = replaced(report, panel_host(remote), "{redacted}"@);
    let r2 = replaced(r1, api_host, "{redacted}"@);
    let r3 = replaced(r2, sftp_bind_address, "{redacted}"@);
    let r4 = if ssl_cert.len() > 0 {
        replaced(r3, ssl_cert, "{redacted}"@)
    } else {
        r3
    };
    if ssl_key.len() > 0 {
        replaced(r4, ssl_key, "{redacted}"@)
    } else {
        r4
    }
}

/// Replaces the endpoints named in the configuration by `{redacted}`.
pub fn redact_report(
    report: &str,
    remote: &str,
    api_host: &str,
    sftp_bind_address: &str,
    ssl_cert: &str,
    ssl_key: &str,
) -> (r: String)
    ensures
        r@ == redacted_text(report@, remote@, api_host@, sftp_bind_address@, ssl_cert@, ssl_key@),
{
    let host = trim_start_matches(remote, "https://");
    let host = trim_start_matches(host.as_str(), "http://");
    let out = replace_all(report, host.as_str(), "{redacted}");
    let out = replace_all(out.as_str(), api_host, "{redacted}");
    let mut out = replace_all(out.as_str(), sftp_bind_address, "{redacted}");
    if !ssl_cert.is_empty() {
        out = replace_all(out.as_str(), ssl_cert, "{redacted}");
    }
    if !ssl_key.is_empty() {
        out = replace_all(out.as_str(), ssl_key, "{redacted}");
    }
    out
}

} // verus!
