//! The client side of the sync link, without the sockets: host addresses the
//! user types, endpoints, diagnoses of failed connections, clock alignment and
//! the status changes the connection loop makes.

use vstd::prelude::*;
use vstd::string::*;
use crate::models::{
    issue_view, now_ms, text_view, AppRole, ConnectionIssue, ConnectionIssueKind, ConnectionState,
    HostInfo, HostInfoView, IssueView, LyricsDocument, RuntimeStatus,
};
use crate::network::WS_PORT;
use crate::text::{
    append_chars, append_str, chars_of, concat2, concat3, contains_char, contains_text, contains_text_exec,
    decimal_chars, decimal_string, is_ascii_digit, occurs_at, occurs_at_exec, same_text, string_of,
    trim, trim_chars,
};

verus! {

// ---------------------------------------------------------------------------
// Endpoints
// ---------------------------------------------------------------------------

/// `address:port`, with an IPv6 address put in brackets unless it already is.
pub open spec fn endpoint_text(address: Seq<char>, port: u16) -> Seq<char> {
    if address.contains(':') && !(address.len() > 0 && address[0] == '[') {
        "["@ + address + "]:"@ + decimal_string(port as nat)
    } else {
        address + ":"@ + decimal_string(port as nat)
    }
}

pub fn format_endpoint(address: &str, port: u16) -> (r: String)
    ensures
        r@ == endpoint_text(address@, port),
{
    let a = chars_of(address);
    let mut out: Vec<char> = Vec::new();
    let bracket = contains_char(&a, ':') && !(a.len() > 0 && a[0] == '[');
    if bracket {
        append_str(&mut out, "[");
        append_chars(&mut out, &a);
        append_str(&mut out, "]:");
    } else {
        append_chars(&mut out, &a);
        append_str(&mut out, ":");
    }
    let digits = decimal_chars(port as u64);
    append_chars(&mut out, &digits);
    string_of(&out)
}

pub fn host_endpoint(host: &HostInfo) -> (r: String)
    ensures
        r@ == endpoint_text(host.address@, host.port),
{
    format_endpoint(host.address.as_str(), host.port)
}

/// The WebSocket address of a host's sync service.
pub fn websocket_url(host: &HostInfo) -> (r: String)
    ensures
        r@ == "ws://"@ + endpoint_text(host.address@, host.port) + "/ws"@,
{
    let endpoint = host_endpoint(host);
    concat3("ws://", endpoint.as_str(), "/ws")
}

// ---------------------------------------------------------------------------
// Manual host addresses
// ---------------------------------------------------------------------------

/// The parts of a parsed URL that the address check reads.
pub struct UrlParts {
    pub scheme: String,
    pub username: String,
    pub password: Option<String>,
    pub path: String,
    pub query: Option<String>,
    pub fragment: Option<String>,
    pub host: Option<String>,
    pub port: Option<u16>,
    pub known_port: Option<u16>,
}

pub struct UrlPartsView {
    pub scheme: Seq<char>,
    pub username: Seq<char>,
    pub password: Option<Seq<char>>,
    pub path: Seq<char>,
    pub query: Option<Seq<char>>,
    pub fragment: Option<Seq<char>>,
    pub host: Option<Seq<char>>,
    pub port: Option<u16>,
    pub known_port: Option<u16>,
}

impl DeepView for UrlParts {
    type V = UrlPartsView;

    open spec fn deep_view(&self) -> UrlPartsView {
        UrlPartsView {
            scheme: self.scheme@,
            username: self.username@,
            password: text_view(self.password),
            path: self.path@,
            query: text_view(self.query),
            fragment: text_view(self.fragment),
            host: text_view(self.host),
            port: self.port,
            known_port: self.known_port,
        }
    }
}

/// What `url::Url::parse` makes of a text: the parts of the URL, or the
/// `Display` text of the parse error.
pub uninterp spec fn parsed_url(input: Seq<char>) -> Result<UrlPartsView, Seq<char>>;

/// Calls `url::Url::parse` and reads `scheme`, `username`, `password`, `path`,
/// `query`, `fragment`, `host_str`, `port` and `port_or_known_default` of the
/// result; the outcome is named `parsed_url` and nothing more is claimed of it.
#[verifier::external_body]
fn parse_url(input: &str) -> (r: Result<UrlParts, String>)
    ensures
        match r {
            Ok(p) => parsed_url(input@) == Ok::<_, Seq<char>>(p.deep_view()),
            Err(e) => parsed_url(input@) == Err::<UrlPartsView, _>(e@),
        },
{
    match url::Url::parse(input) {
        Ok(url) => Ok(UrlParts {
            scheme: url.scheme().to_owned(),
            username: url.username().to_owned(),
            password: url.password().map(str::to_owned),
            path: url.path().to_owned(),
            query: url.query().map(str::to_owned),
            fragment: url.fragment().map(str::to_owned),
            host: url.host_str().map(str::to_owned),
            port: url.port(),
            known_port: url.port_or_known_default(),
        }),
        Err(error) => Err(error.to_string()),
    }
}

pub open spec fn empty_address_message() -> Seq<char> {
    "请输入主机 IP 地址，例如 192.168.0.9"@
}

pub open spec fn bad_format_prefix() -> Seq<char> {
    "主机地址格式不正确: "@
}

pub open spec fn bad_scheme_message() -> Seq<char> {
    "主机地址只支持 IP、计算机名或 ws:// 地址"@
}

pub open spec fn extra_parts_message() -> Seq<char> {
    "主机地址不能包含账号、查询参数或片段"@
}

pub open spec fn bad_path_message() -> Seq<char> {
    "主机地址路径只能是 /ws"@
}

pub open spec fn missing_host_message() -> Seq<char> {
    "主机地址缺少 IP 或计算机名"@
}

// The URL parser reports no port when the address names its scheme's default
// port, so whether a port was typed is read from the address text itself: the
// authority follows the first `://` and ends at the first `/`, `?`, `#` or `\`;
// after its last `@`, a typed port is a `:` followed by decimal digits at its
// end.

/// Index of the first `://` at or after `i`, or the end of the text.
pub open spec fn scheme_separator(s: Seq<char>, i: int) -> int
    decreases s.len() - i,
{
    if i + 3 > s.len() || i < 0 {
        s.len() as int
    } else if occurs_at(s, i, "://"@) {
        i
    } else {
        scheme_separator(s, i + 1)
    }
}

pub open spec fn ends_authority(c: char) -> bool {
    c == '/' || c == '?' || c == '#' || c == '\\'
}

/// Index of the first character at or after `i` that ends the authority.
pub open spec fn authority_end(s: Seq<char>, i: int) -> int
    decreases s.len() - i,
{
    if i < 0 || i >= s.len() || ends_authority(s[i]) {
        i
    } else {
        authority_end(s, i + 1)
    }
}

/// Index just after the last `@` in `s[lo..hi]`, or `lo` when there is none.
pub open spec fn after_last_at(s: Seq<char>, lo: int, hi: int) -> int
    decreases hi - lo,
{
    if hi <= lo {
        lo
    } else if s[hi - 1] == '@' {
        hi
    } else {
        after_last_at(s, lo, hi - 1)
    }
}

/// Walks `j` back over ASCII digits, not below `lo`.
pub open spec fn digits_back(s: Seq<char>, lo: int, j: int) -> int
    decreases j - lo,
{
    if lo < j && is_ascii_digit(s[j - 1]) {
        digits_back(s, lo, j - 1)
    } else {
        j
    }
}

/// Whether `s[lo..hi]` ends in `:` and at least one decimal digit.
pub open spec fn ends_in_port(s: Seq<char>, lo: int, hi: int) -> bool {
    let d = digits_back(s, lo, hi);
    d < hi && lo < d && s[d - 1] == ':'
}

/// Whether the address text names a port of its own.
pub open spec fn typed_port(s: Seq<char>) -> bool {
    let start = scheme_separator(s, 0) + 3;
    let end = authority_end(s, start);
    ends_in_port(s, after_last_at(s, start, end), end)
}

/// The port a host is reached at: the parsed port; when the parser reports
/// none although one was typed, the typed port is the scheme's default; with
/// no port typed, the sync port.
pub open spec fn chosen_port(u: UrlPartsView, port_typed: bool) -> u16 {
    match u.port {
        Some(p) => p,
        None => if port_typed && u.known_port is Some {
            u.known_port.unwrap()
        } else {
            WS_PORT
        },
    }
}

/// The host a parsed address names. `http` is read as `ws`: switching between
/// the two special schemes (both with default port 80) leaves every part the
/// check reads as it is.
pub open spec fn host_of_url(u: UrlPartsView, port_typed: bool) -> Result<HostInfoView, Seq<char>> {
    if u.scheme != "ws"@ && u.scheme != "http"@ {
        Err(bad_scheme_message())
    } else if u.username.len() > 0 || u.password is Some || u.query is Some || u.fragment is Some {
        Err(extra_parts_message())
    } else if u.path != ""@ && u.path != "/"@ && u.path != "/ws"@ {
        Err(bad_path_message())
    } else {
        match u.host {
            None => Err(missing_host_message()),
            Some(address) => {
                let port = chosen_port(u, port_typed);
                let endpoint = endpoint_text(address, port);
                Ok(
                    HostInfoView {
                        id: "manual:"@ + endpoint,
                        name: "手动主机 "@ + endpoint,
                        address,
                        port,
                        latency_ms: None,
                    },
                )
            },
        }
    }
}

/// The host a typed address names: trimmed, `ws://` put in front when it
/// names no scheme, then parsed as a URL.
pub open spec fn manual_host(input: Seq<char>) -> Result<HostInfoView, Seq<char>> {
    let t = trim(input);
    if t.len() == 0 {
        Err(empty_address_message())
    } else {
        let normalized = if contains_text(t, "://"@) {
            t
        } else {
            "ws://"@ + t
        };
        match parsed_url(normalized) {
            Err(e) => Err(bad_format_prefix() + e),
            Ok(u) => host_of_url(u, typed_port(normalized)),
        }
    }
}

pub open spec fn host_result_view(r: Result<HostInfo, String>) -> Result<HostInfoView, Seq<char>> {
    match r {
        Ok(h) => Ok(h.deep_view()),
        Err(e) => Err(e@),
    }
}

/// Checks the parts of a parsed address and makes the host they name;
/// `port_typed` tells whether the address text names a port.
pub fn host_from_url(parts: &UrlParts, port_typed: bool) -> (r: Result<HostInfo, String>)
    ensures
        host_result_view(r) == host_of_url(parts.deep_view(), port_typed),
{
    let scheme = parts.scheme.as_str();
    if !same_text(scheme, "ws") && !same_text(scheme, "http") {
        return Err(String::from_str("主机地址只支持 IP、计算机名或 ws:// 地址"));
    }
    let username = chars_of(parts.username.as_str());
    if username.len() > 0 || parts.password.is_some() || parts.query.is_some()
        || parts.fragment.is_some() {
        return Err(String::from_str("主机地址不能包含账号、查询参数或片段"));
    }
    let path = parts.path.as_str();
    if !same_text(path, "") && !same_text(path, "/") && !same_text(path, "/ws") {
        return Err(String::from_str("主机地址路径只能是 /ws"));
    }
    match &parts.host {
        None => Err(String::from_str("主机地址缺少 IP 或计算机名")),
        Some(address) => {
            let port = match parts.port {
                Some(p) => p,
                None => match parts.known_port {
                    Some(k) => if port_typed {
                        k
                    } else {
                        WS_PORT
                    },
                    None => WS_PORT,
                },
            };
            let endpoint = format_endpoint(address.as_str(), port);
            let mut id = String::from_str("manual:");
            id.append(endpoint.as_str());
            let mut name = String::from_str("手动主机 ");
            name.append(endpoint.as_str());
            let address = String::from_str(address.as_str());
            Ok(HostInfo { id, name, address, port, latency_ms: None })
        },
    }
}

fn scheme_separator_exec(s: &Vec<char>) -> (r: usize)
    ensures
        r == scheme_separator(s@, 0),
        r == s.len() || r + 3 <= s.len(),
{
    let sep = chars_of("://");
    proof {
        reveal_strlit("://");
    }
    let mut i: usize = 0;
    while s.len() >= 3 && i <= s.len() - 3
        invariant
            i <= s.len(),
            sep@ == "://"@,
            scheme_separator(s@, 0) == scheme_separator(s@, i as int),
        decreases s.len() - i,
    {
        if occurs_at_exec(s, i, &sep) {
            return i;
        }
        i = i + 1;
    }
    s.len()
}

fn authority_end_exec(s: &Vec<char>, start: usize) -> (r: usize)
    requires
        start <= s.len(),
    ensures
        r == authority_end(s@, start as int),
        start <= r <= s.len(),
{
    let mut i = start;
    while i < s.len()
        invariant
            start <= i <= s.len(),
            authority_end(s@, start as int) == authority_end(s@, i as int),
        decreases s.len() - i,
    {
        let c = s[i];
        if c == '/' || c == '?' || c == '#' || c == '\\' {
            return i;
        }
        i = i + 1;
    }
    i
}

fn after_last_at_exec(s: &Vec<char>, lo: usize, hi: usize) -> (r: usize)
    requires
        hi <= s.len(),
    ensures
        r == after_last_at(s@, lo as int, hi as int),
{
    let mut j = hi;
    while lo < j
        invariant
            j <= hi,
            hi <= s.len(),
            after_last_at(s@, lo as int, hi as int) == after_last_at(s@, lo as int, j as int),
        decreases j,
    {
        if s[j - 1] == '@' {
            return j;
        }
        j = j - 1;
    }
    lo
}

fn ends_in_port_exec(s: &Vec<char>, lo: usize, hi: usize) -> (r: bool)
    requires
        hi <= s.len(),
    ensures
        r == ends_in_port(s@, lo as int, hi as int),
{
    let mut d = hi;
    while lo < d && 48 <= (s[d - 1] as u32) && (s[d - 1] as u32) <= 57
        invariant
            d <= hi,
            hi <= s.len(),
            digits_back(s@, lo as int, hi as int) == digits_back(s@, lo as int, d as int),
        decreases d,
    {
        d = d - 1;
    }
    d < hi && lo < d && s[d - 1] == ':'
}

/// Whether the address text names a port of its own.
fn has_typed_port(s: &Vec<char>) -> (r: bool)
    ensures
        r == typed_port(s@),
{
    let sep = scheme_separator_exec(s);
    if sep == s.len() {
        return false;
    }
    let start = sep + 3;
    let end = authority_end_exec(s, start);
    let after = after_last_at_exec(s, start, end);
    ends_in_port_exec(s, after, end)
}

/// Reads the host address the user typed: an IP, a computer name, or a
/// `ws://` (or `http://`) address with an optional port and the path `/ws`.
pub fn parse_manual_host(input: &str) -> (r: Result<HostInfo, String>)
    ensures
        host_result_view(r) == manual_host(input@),
{
    let chars = chars_of(input);
    let t = trim_chars(&chars);
    if t.len() == 0 {
        return Err(String::from_str("请输入主机 IP 地址，例如 192.168.0.9"));
    }
    let separator = chars_of("://");
    let normalized = if contains_text_exec(&t, &separator) {
        t
    } else {
        let mut n = chars_of("ws://");
        append_chars(&mut n, &t);
        n
    };
    let text = string_of(&normalized);
    match parse_url(text.as_str()) {
        Err(e) => {
            let mut message = String::from_str("主机地址格式不正确: ");
            message.append(e.as_str());
            Err(message)
        },
        Ok(parts) => host_from_url(&parts, has_typed_port(&normalized)),
    }
}

// ---------------------------------------------------------------------------
// Diagnoses
// ---------------------------------------------------------------------------

pub open spec fn issue_spec(
    kind: ConnectionIssueKind,
    title: Seq<char>,
    message: Seq<char>,
    suggestion: Seq<char>,
    detail: Option<Seq<char>>,
    endpoint: Option<Seq<char>>,
) -> IssueView {
    IssueView { kind, title, message, suggestion, detail, endpoint }
}

fn make_issue(
    kind: ConnectionIssueKind,
    title: &str,
    message: String,
    suggestion: &str,
    detail: Option<String>,
    endpoint: Option<String>,
) -> (r: ConnectionIssue)
    ensures
        issue_view(r) == issue_spec(
            kind,
            title@,
            message@,
            suggestion@,
            text_view(detail),
            text_view(endpoint),
        ),
{
    ConnectionIssue::new(
        kind,
        String::from_str(title),
        message,
        String::from_str(suggestion),
        detail,
        endpoint,
    )
}

pub open spec fn discovery_timeout_view() -> IssueView {
    issue_spec(
        ConnectionIssueKind::DiscoveryTimeout,
        "没有发现局域网主机"@,
        "已通过所有有效 IPv4 网卡发送三轮广播，但 3 秒内没有收到响应。"@,
        "广播可能被 VLAN、无线终端隔离或防火墙拦截；可以在右侧直接输入主机 IP。"@,
        None,
        None,
    )
}

/// No host answered the discovery broadcasts in time.
pub fn discovery_timeout_issue() -> (r: ConnectionIssue)
    ensures
        issue_view(r) == discovery_timeout_view(),
{
    make_issue(
        ConnectionIssueKind::DiscoveryTimeout,
        "没有发现局域网主机",
        String::from_str("已通过所有有效 IPv4 网卡发送三轮广播，但 3 秒内没有收到响应。"),
        "广播可能被 VLAN、无线终端隔离或防火墙拦截；可以在右侧直接输入主机 IP。",
        None,
        None,
    )
}

pub open spec fn discovery_failed_view(error: Seq<char>) -> IssueView {
    issue_spec(
        ConnectionIssueKind::DiscoveryFailed,
        "自动发现启动失败"@,
        "当前电脑无法正常发送或接收局域网发现广播。"@,
        "检查网卡是否已连接，以及防火墙或安全软件是否允许 UDP 17635。"@,
        Some(error),
        None,
    )
}

/// Discovery could not send or receive.
pub fn discovery_failed_issue(error: String) -> (r: ConnectionIssue)
    ensures
        issue_view(r) == discovery_failed_view(error@),
{
    make_issue(
        ConnectionIssueKind::DiscoveryFailed,
        "自动发现启动失败",
        String::from_str("当前电脑无法正常发送或接收局域网发现广播。"),
        "检查网卡是否已连接，以及防火墙或安全软件是否允许 UDP 17635。",
        Some(error),
        None,
    )
}

pub open spec fn timeout_view(endpoint: Seq<char>, detail: Option<Seq<char>>) -> IssueView {
    issue_spec(
        ConnectionIssueKind::ConnectionTimeout,
        "连接超时，可能被网络策略拦截"@,
        endpoint + " 在 4 秒内没有响应 TCP 连接。"@,
        "确认主机防火墙允许 TCP 17636，并检查 Wi-Fi 隔离、VLAN 或公司网络 ACL。"@,
        detail,
        Some(endpoint),
    )
}

pub fn connection_timeout_issue_with_detail(endpoint: &str, detail: Option<String>) -> (r:
    ConnectionIssue)
    ensures
        issue_view(r) == timeout_view(endpoint@, text_view(detail)),
{
    make_issue(
        ConnectionIssueKind::ConnectionTimeout,
        "连接超时，可能被网络策略拦截",
        concat2(endpoint, " 在 4 秒内没有响应 TCP 连接。"),
        "确认主机防火墙允许 TCP 17636，并检查 Wi-Fi 隔离、VLAN 或公司网络 ACL。",
        detail,
        Some(String::from_str(endpoint)),
    )
}

/// The host did not answer the TCP connection in time.
pub fn connection_timeout_issue(endpoint: &str) -> (r: ConnectionIssue)
    ensures
        issue_view(r) == timeout_view(endpoint@, None),
{
    connection_timeout_issue_with_detail(endpoint, None)
}

pub open spec fn protocol_view(endpoint: Seq<char>, detail: Seq<char>) -> IssueView {
    issue_spec(
        ConnectionIssueKind::ProtocolMismatch,
        "同步协议不兼容"@,
        endpoint + " 已建立连接，但返回了无法识别的数据。"@,
        "确认主机和客户端使用相同版本的软件，并确认端口没有指向其它服务。"@,
        Some(detail),
        Some(endpoint),
    )
}

/// The host answered with data this protocol does not know.
pub fn protocol_issue(endpoint: &str, detail: String) -> (r: ConnectionIssue)
    ensures
        issue_view(r) == protocol_view(endpoint@, detail@),
{
    make_issue(
        ConnectionIssueKind::ProtocolMismatch,
        "同步协议不兼容",
        concat2(endpoint, " 已建立连接，但返回了无法识别的数据。"),
        "确认主机和客户端使用相同版本的软件，并确认端口没有指向其它服务。",
        Some(detail),
        Some(String::from_str(endpoint)),
    )
}

pub open spec fn disconnected_view(endpoint: Seq<char>, detail: Option<Seq<char>>) -> IssueView {
    issue_spec(
        ConnectionIssueKind::Disconnected,
        "与主机的连接已中断"@,
        endpoint + " 关闭了连接或网络发生了变化。"@,
        "软件会自动重连；如果持续失败，请检查主机是否退出以及网络是否切换。"@,
        detail,
        Some(endpoint),
    )
}

/// An established link broke.
pub fn disconnected_issue(endpoint: &str, detail: Option<String>) -> (r: ConnectionIssue)
    ensures
        issue_view(r) == disconnected_view(endpoint@, text_view(detail)),
{
    make_issue(
        ConnectionIssueKind::Disconnected,
        "与主机的连接已中断",
        concat2(endpoint, " 关闭了连接或网络发生了变化。"),
        "软件会自动重连；如果持续失败，请检查主机是否退出以及网络是否切换。",
        detail,
        Some(String::from_str(endpoint)),
    )
}

// ---------------------------------------------------------------------------
// I/O and WebSocket failures
// ---------------------------------------------------------------------------

/// The `std::io::ErrorKind`s that the diagnosis tells apart.
#[derive(Debug, Clone, Copy, PartialEq, Eq, Structural)]
pub enum IoErrorKind {
    ConnectionRefused,
    TimedOut,
    NetworkUnreachable,
    HostUnreachable,
    PermissionDenied,
    Other,
}

/// What an I/O error says of itself: its kind, the operating system's code,
/// and its text.
#[derive(Debug, Clone)]
pub struct IoFailure {
    pub kind: IoErrorKind,
    pub os_code: Option<i32>,
    pub detail: String,
}

#[verifier::external_type_specification]
#[verifier::external_body]
pub struct ExIoError(std::io::Error);

/// What `std::io::Error::kind` and `std::io::Error::raw_os_error` report of an
/// error: the kind, sorted into the kinds the diagnosis tells apart, and the
/// operating system's error code.
pub uninterp spec fn io_error_reading(error: std::io::Error) -> (IoErrorKind, Option<i32>);

/// Reads `kind()`, `raw_os_error()` and the `Display` text of a
/// `std::io::Error`. The kind and the code are named `io_error_reading`; the
/// text, which may follow the system's language, is left unnamed.
#[verifier::external_body]
fn io_failure_of(error: &std::io::Error) -> (r: IoFailure)
    ensures
        (r.kind, r.os_code) == io_error_reading(*error),
{
    let kind = match error.kind() {
        std::io::ErrorKind::ConnectionRefused => IoErrorKind::ConnectionRefused,
        std::io::ErrorKind::TimedOut => IoErrorKind::TimedOut,
        std::io::ErrorKind::NetworkUnreachable => IoErrorKind::NetworkUnreachable,
        std::io::ErrorKind::HostUnreachable => IoErrorKind::HostUnreachable,
        std::io::ErrorKind::PermissionDenied => IoErrorKind::PermissionDenied,
        _ => IoErrorKind::Other,
    };
    IoFailure { kind, os_code: error.raw_os_error(), detail: error.to_string() }
}

/// The diagnosis of an I/O failure, by kind or by Windows socket error code.
pub open spec fn io_issue_view(endpoint: Seq<char>, f: IoFailure) -> IssueView {
    io_issue_parts(endpoint, f.kind, f.os_code, f.detail@)
}

/// The diagnosis of an I/O failure of `kind` with the operating system's
/// `code` and the error text `text`.
pub open spec fn io_issue_parts(
    endpoint: Seq<char>,
    kind: IoErrorKind,
    code: Option<i32>,
    text: Seq<char>,
) -> IssueView {
    let detail = Some(text);
    if kind == IoErrorKind::ConnectionRefused || code == Some(10061i32) {
        issue_spec(
            ConnectionIssueKind::ConnectionRefused,
            "同步服务未接受连接"@,
            "电脑 "@ + endpoint + " 可以到达，但同步端口拒绝了连接。"@,
            "确认主机端软件正在运行且处于主机模式，并检查端口是否被其它程序占用。"@,
            detail,
            Some(endpoint),
        )
    } else if kind == IoErrorKind::TimedOut || code == Some(10060i32) {
        timeout_view(endpoint, detail)
    } else if kind == IoErrorKind::NetworkUnreachable || kind == IoErrorKind::HostUnreachable
        || code == Some(10051i32) || code == Some(10065i32) {
        issue_spec(
            ConnectionIssueKind::NetworkUnreachable,
            "找不到主机网络路径"@,
            "当前电脑没有可用路径连接 "@ + endpoint + "。"@,
            "确认两台电脑的 IP 和子网掩码，并暂时断开可能改变路由的 VPN 或虚拟网卡。"@,
            detail,
            Some(endpoint),
        )
    } else if code == Some(11001i32) {
        issue_spec(
            ConnectionIssueKind::NetworkUnreachable,
            "无法解析主机名称"@,
            "系统找不到 "@ + endpoint + " 对应的网络地址。"@,
            "检查计算机名是否正确，或改用主机的 IPv4 地址连接。"@,
            detail,
            Some(endpoint),
        )
    } else if kind == IoErrorKind::PermissionDenied || code == Some(10013i32) {
        issue_spec(
            ConnectionIssueKind::FirewallOrSecurity,
            "连接被安全策略阻止"@,
            "系统不允许连接 "@ + endpoint + "。"@,
            "检查 Windows 防火墙、杀毒软件和公司终端安全策略是否允许 TCP 17636。"@,
            detail,
            Some(endpoint),
        )
    } else {
        issue_spec(
            ConnectionIssueKind::Other,
            "网络连接失败"@,
            "连接 "@ + endpoint + " 时发生网络错误。"@,
            "先测试能否 ping 通主机，再使用 Test-NetConnection 检查 TCP 17636。"@,
            detail,
            Some(endpoint),
        )
    }
}

/// How an I/O failure is diagnosed, by its kind and the Windows socket code:
/// a refusal (or code 10061) comes first; then a timeout (or 10060); then an
/// unreachable network or host (or 10051, 10065) is a missing network path;
/// then 11001 is an unknown name; then a denied permission (or 10013) is a
/// firewall or security block. Every diagnosis names the endpoint and carries
/// the failure's text.
pub proof fn lemma_io_diagnosis(endpoint: Seq<char>, f: IoFailure)
    ensures
        io_issue_view(endpoint, f).endpoint == Some(endpoint),
        io_issue_view(endpoint, f).detail == Some(f.detail@),
        f.kind == IoErrorKind::ConnectionRefused || f.os_code == Some(10061i32)
            ==> io_issue_view(endpoint, f).kind == ConnectionIssueKind::ConnectionRefused,
        !(f.kind == IoErrorKind::ConnectionRefused || f.os_code == Some(10061i32)) && (f.kind
            == IoErrorKind::TimedOut || f.os_code == Some(10060i32)) ==> io_issue_view(
            endpoint,
            f,
        ).kind == ConnectionIssueKind::ConnectionTimeout,
        !(f.kind == IoErrorKind::ConnectionRefused || f.os_code == Some(10061i32)) && !(f.kind
            == IoErrorKind::TimedOut || f.os_code == Some(10060i32)) && (f.kind
            == IoErrorKind::NetworkUnreachable || f.kind == IoErrorKind::HostUnreachable
            || f.os_code == Some(10051i32) || f.os_code == Some(10065i32)) ==> {
            &&& io_issue_view(endpoint, f).kind == ConnectionIssueKind::NetworkUnreachable
            &&& io_issue_view(endpoint, f).title == "找不到主机网络路径"@
        },
        f.kind == IoErrorKind::Other && f.os_code == Some(11001i32) ==> io_issue_view(
            endpoint,
            f,
        ).kind == ConnectionIssueKind::NetworkUnreachable,
        f.kind == IoErrorKind::PermissionDenied && f.os_code is None ==> io_issue_view(
            endpoint,
            f,
        ).kind == ConnectionIssueKind::FirewallOrSecurity,
        f.kind == IoErrorKind::Other && f.os_code is None ==> io_issue_view(endpoint, f).kind
            == ConnectionIssueKind::Other,
{
}

/// Diagnoses an I/O failure on the way to `endpoint`.
pub fn classify_io_failure(endpoint: &str, failure: &IoFailure) -> (r: ConnectionIssue)
    ensures
        issue_view(r) == io_issue_view(endpoint@, *failure),
{
    let code = failure.os_code;
    let detail = Some(String::from_str(failure.detail.as_str()));
    let ep = Some(String::from_str(endpoint));
    let kind = failure.kind;
    if kind == IoErrorKind::ConnectionRefused || code == Some(10061i32) {
        return make_issue(
            ConnectionIssueKind::ConnectionRefused,
            "同步服务未接受连接",
            concat3("电脑 ", endpoint, " 可以到达，但同步端口拒绝了连接。"),
            "确认主机端软件正在运行且处于主机模式，并检查端口是否被其它程序占用。",
            detail,
            ep,
        );
    }
    if kind == IoErrorKind::TimedOut || code == Some(10060i32) {
        return connection_timeout_issue_with_detail(endpoint, detail);
    }
    if kind == IoErrorKind::NetworkUnreachable || kind == IoErrorKind::HostUnreachable || code
        == Some(10051i32) || code == Some(10065i32) {
        return make_issue(
            ConnectionIssueKind::NetworkUnreachable,
            "找不到主机网络路径",
            concat3("当前电脑没有可用路径连接 ", endpoint, "。"),
            "确认两台电脑的 IP 和子网掩码，并暂时断开可能改变路由的 VPN 或虚拟网卡。",
            detail,
            ep,
        );
    }
    if code == Some(11001i32) {
        return make_issue(
            ConnectionIssueKind::NetworkUnreachable,
            "无法解析主机名称",
            concat3("系统找不到 ", endpoint, " 对应的网络地址。"),
            "检查计算机名是否正确，或改用主机的 IPv4 地址连接。",
            detail,
            ep,
        );
    }
    if kind == IoErrorKind::PermissionDenied || code == Some(10013i32) {
        return make_issue(
            ConnectionIssueKind::FirewallOrSecurity,
            "连接被安全策略阻止",
            concat3("系统不允许连接 ", endpoint, "。"),
            "检查 Windows 防火墙、杀毒软件和公司终端安全策略是否允许 TCP 17636。",
            detail,
            ep,
        );
    }
    make_issue(
        ConnectionIssueKind::Other,
        "网络连接失败",
        concat3("连接 ", endpoint, " 时发生网络错误。"),
        "先测试能否 ping 通主机，再使用 Test-NetConnection 检查 TCP 17636。",
        detail,
        ep,
    )
}

/// Diagnoses a `std::io::Error` met on the way to `endpoint` by its kind and
/// operating-system code; the issue names the endpoint and carries the
/// error's text as its detail.
pub fn connection_issue_from_io_error(endpoint: &str, error: &std::io::Error) -> (r:
    ConnectionIssue)
    ensures
        issue_view(r).detail is Some,
        issue_view(r) == io_issue_parts(
            endpoint@,
            io_error_reading(*error).0,
            io_error_reading(*error).1,
            issue_view(r).detail.unwrap(),
        ),
{
    let failure = io_failure_of(error);
    classify_io_failure(endpoint, &failure)
}

/// A failed WebSocket connection, by the kinds the diagnosis tells apart.
#[derive(Debug, Clone)]
pub enum WebSocketFailure {
    /// The underlying connection failed.
    Io(IoFailure),
    /// The port answered with HTTP: its status line and the error's text.
    Http { status: String, detail: String },
    /// A WebSocket protocol or URL error, with its text.
    Protocol { detail: String },
    /// Anything else, with its text.
    Other { detail: String },
}

pub open spec fn websocket_issue_view(endpoint: Seq<char>, f: WebSocketFailure) -> IssueView {
    match f {
        WebSocketFailure::Io(io) => io_issue_view(endpoint, io),
        WebSocketFailure::Http { status, detail } => issue_spec(
            ConnectionIssueKind::ProtocolMismatch,
            "目标端口不是同步服务"@,
            endpoint + " 返回了 HTTP "@ + status@ + "，但没有完成 WebSocket 握手。"@,
            "确认地址和端口正确，并确认目标电脑运行的是相同版本的 QQMusic LAN Sync。"@,
            Some(detail@),
            Some(endpoint),
        ),
        WebSocketFailure::Protocol { detail } => protocol_view(endpoint, detail@),
        WebSocketFailure::Other { detail } => issue_spec(
            ConnectionIssueKind::Other,
            "连接主机失败"@,
            "无法建立到 "@ + endpoint + " 的同步连接。"@,
            "检查主机地址、服务运行状态以及双方的网络和安全软件设置。"@,
            Some(detail@),
            Some(endpoint),
        ),
    }
}

/// Diagnoses a failed WebSocket connection to `endpoint`.
pub fn connection_issue_from_websocket_error(endpoint: &str, failure: &WebSocketFailure) -> (r:
    ConnectionIssue)
    ensures
        issue_view(r) == websocket_issue_view(endpoint@, *failure),
{
    match failure {
        WebSocketFailure::Io(io) => classify_io_failure(endpoint, io),
        WebSocketFailure::Http { status, detail } => {
            let mut message = concat3(endpoint, " 返回了 HTTP ", status.as_str());
            message.append("，但没有完成 WebSocket 握手。");
            make_issue(
                ConnectionIssueKind::ProtocolMismatch,
                "目标端口不是同步服务",
                message,
                "确认地址和端口正确，并确认目标电脑运行的是相同版本的 QQMusic LAN Sync。",
                Some(String::from_str(detail.as_str())),
                Some(String::from_str(endpoint)),
            )
        },
        WebSocketFailure::Protocol { detail } => protocol_issue(
            endpoint,
            String::from_str(detail.as_str()),
        ),
        WebSocketFailure::Other { detail } => make_issue(
            ConnectionIssueKind::Other,
            "连接主机失败",
            concat3("无法建立到 ", endpoint, " 的同步连接。"),
            "检查主机地址、服务运行状态以及双方的网络和安全软件设置。",
            Some(String::from_str(detail.as_str())),
            Some(String::from_str(endpoint)),
        ),
    }
}

// ---------------------------------------------------------------------------
// Clock alignment
// ---------------------------------------------------------------------------

/// `x as i64`: values above `i64::MAX` wrap around.
pub open spec fn wrapped_i64(x: u64) -> int {
    if x <= i64::MAX {
        x as int
    } else {
        x - 0x1_0000_0000_0000_0000
    }
}

/// The host clock minus the local one, from a ping sent at `client_time_ms`,
/// answered with `server_time_ms` and received at `now_ms`: the host time set
/// against the middle of the round trip.
pub open spec fn pong_offset(now_ms: u64, client_time_ms: u64, server_time_ms: u64) -> int {
    let round_trip = now_ms.saturating_sub(client_time_ms);
    let midpoint = client_time_ms.saturating_add(round_trip / 2);
    wrapped_i64(server_time_ms) - wrapped_i64(midpoint)
}

pub fn clock_offset_from_pong(now_ms: u64, client_time_ms: u64, server_time_ms: u64) -> (r: i64)
    requires
        i64::MIN <= pong_offset(now_ms, client_time_ms, server_time_ms) <= i64::MAX,
    ensures
        r == pong_offset(now_ms, client_time_ms, server_time_ms),
{
    let round_trip = now_ms.saturating_sub(client_time_ms);
    let midpoint = client_time_ms.saturating_add(round_trip / 2);
    let server = server_time_ms as i64;
    let middle = midpoint as i64;
    proof {
        assert(server == wrapped_i64(server_time_ms)) by (bit_vector)
            requires
                server == server_time_ms as i64,
        ;
        assert(middle == wrapped_i64(midpoint)) by (bit_vector)
            requires
                middle == midpoint as i64,
        ;
    }
    server - middle
}

/// A host observation time moved onto the local clock, never below zero.
pub open spec fn shifted_observation(observed_at_ms: u64, clock_offset_ms: i64) -> u64 {
    let t = wrapped_i64(observed_at_ms) - clock_offset_ms;
    if t < 0 {
        0
    } else {
        t as u64
    }
}

pub open spec fn can_shift(observed_at_ms: u64, clock_offset_ms: i64) -> bool {
    i64::MIN <= wrapped_i64(observed_at_ms) - clock_offset_ms <= i64::MAX
}

/// Moves the playback observation time of a host status onto the local clock.
pub fn adjust_snapshot_clock(runtime: &mut RuntimeStatus, clock_offset_ms: i64)
    requires
        can_shift(old(runtime).playback.observed_at_ms, clock_offset_ms),
    ensures
        final(runtime).playback.observed_at_ms == shifted_observation(
            old(runtime).playback.observed_at_ms,
            clock_offset_ms,
        ),
        *final(runtime) == (RuntimeStatus {
            playback: final(runtime).playback,
            ..*old(runtime)
        }),
        final(runtime).playback == (crate::models::PlaybackSnapshot {
            observed_at_ms: final(runtime).playback.observed_at_ms,
            ..old(runtime).playback
        }),
{
    let observed = runtime.playback.observed_at_ms;
    let wrapped = observed as i64;
    proof {
        assert(wrapped == wrapped_i64(observed)) by (bit_vector)
            requires
                wrapped == observed as i64,
        ;
    }
    let t = wrapped - clock_offset_ms;
    runtime.playback.observed_at_ms = if t < 0 {
        0
    } else {
        t as u64
    };
}

// ---------------------------------------------------------------------------
// The connection loop's status changes
// ---------------------------------------------------------------------------

/// Something the client connection loop saw, to be shown in the status.
pub enum ClientEvent {
    /// A manual host is the one to use.
    UsingPreferredHost(HostInfo),
    /// Discovery starts.
    Discovering,
    /// Discovery found hosts.
    HostsDiscovered(Vec<HostInfo>),
    /// Discovery found nothing or failed.
    DiscoveryFailed(ConnectionIssue),
    /// Connecting to the host at an endpoint.
    TryingHost(String),
    /// No host accepted a connection; the last diagnosis, if any.
    NoHostReachable(Option<ConnectionIssue>),
    /// Connected to the host at an endpoint.
    Connected(String),
    /// The link broke.
    Disconnected(ConnectionIssue),
    /// The host sent its lyrics.
    LyricsReceived(Option<LyricsDocument>),
}

/// Shows an event of the connection loop in the status. Only the fields the
/// event concerns change.
pub fn apply_client_event(status: &mut RuntimeStatus, event: ClientEvent)
    ensures
        match event {
            ClientEvent::UsingPreferredHost(host) => {
                &&& final(status).hosts@ == seq![host]
                &&& *final(status) == (RuntimeStatus {
                    connection: ConnectionState::Connecting,
                    hosts: final(status).hosts,
                    ..*old(status)
                })
            },
            ClientEvent::Discovering => *final(status) == (RuntimeStatus {
                connection: ConnectionState::Discovering,
                server_address: None,
                ..*old(status)
            }),
            ClientEvent::HostsDiscovered(hosts) => *final(status) == (RuntimeStatus {
                hosts,
                ..*old(status)
            }),
            ClientEvent::DiscoveryFailed(issue) => {
                &&& final(status).hosts@.len() == 0
                &&& *final(status) == (RuntimeStatus {
                    connection: ConnectionState::Offline,
                    connection_error: Some(issue),
                    hosts: final(status).hosts,
                    ..*old(status)
                })
            },
            ClientEvent::TryingHost(endpoint) => *final(status) == (RuntimeStatus {
                connection: ConnectionState::Connecting,
                server_address: Some(endpoint),
                ..*old(status)
            }),
            ClientEvent::NoHostReachable(issue) => *final(status) == (RuntimeStatus {
                connection: ConnectionState::Offline,
                connection_error: issue,
                ..*old(status)
            }),
            ClientEvent::Connected(endpoint) => *final(status) == (RuntimeStatus {
                connection: ConnectionState::Connected,
                connection_error: None,
                server_address: Some(endpoint),
                ..*old(status)
            }),
            ClientEvent::Disconnected(issue) => *final(status) == (RuntimeStatus {
                connection: ConnectionState::Offline,
                connection_error: Some(issue),
                ..*old(status)
            }),
            ClientEvent::LyricsReceived(lyrics) => *final(status) == (RuntimeStatus {
                lyrics,
                ..*old(status)
            }),
        },
{
    match event {
        ClientEvent::UsingPreferredHost(host) => {
            status.connection = ConnectionState::Connecting;
            let mut hosts = Vec::new();
            hosts.push(host);
            status.hosts = hosts;
        },
        ClientEvent::Discovering => {
            status.connection = ConnectionState::Discovering;
            status.server_address = None;
        },
        ClientEvent::HostsDiscovered(hosts) => {
            status.hosts = hosts;
        },
        ClientEvent::DiscoveryFailed(issue) => {
            status.connection = ConnectionState::Offline;
            status.connection_error = Some(issue);
            status.hosts = Vec::new();
        },
        ClientEvent::TryingHost(endpoint) => {
            status.connection = ConnectionState::Connecting;
            status.server_address = Some(endpoint);
        },
        ClientEvent::NoHostReachable(issue) => {
            status.connection = ConnectionState::Offline;
            status.connection_error = issue;
        },
        ClientEvent::Connected(endpoint) => {
            status.connection = ConnectionState::Connected;
            status.connection_error = None;
            status.server_address = Some(endpoint);
        },
        ClientEvent::Disconnected(issue) => {
            status.connection = ConnectionState::Offline;
            status.connection_error = Some(issue);
        },
        ClientEvent::LyricsReceived(lyrics) => {
            status.lyrics = lyrics;
        },
    }
}

/// The event a finished discovery round makes: hosts when any answered, a
/// timeout diagnosis when none did, a failure diagnosis when discovery failed.
pub fn discovery_outcome(result: Result<Vec<HostInfo>, String>) -> (r: ClientEvent)
    ensures
        match result {
            Ok(hosts) => if hosts@.len() > 0 {
                r == ClientEvent::HostsDiscovered(hosts)
            } else {
                r matches ClientEvent::DiscoveryFailed(issue) && issue_view(issue)
                    == discovery_timeout_view()
            },
            Err(e) => r matches ClientEvent::DiscoveryFailed(issue) && issue_view(issue)
                == discovery_failed_view(e@),
        },
{
    match result {
        Ok(hosts) => {
            if hosts.len() > 0 {
                ClientEvent::HostsDiscovered(hosts)
            } else {
                ClientEvent::DiscoveryFailed(discovery_timeout_issue())
            }
        },
        Err(e) => ClientEvent::DiscoveryFailed(discovery_failed_issue(e)),
    }
}

/// Milliseconds to wait before retrying when discovery or every connection
/// attempt failed.
pub const AUTO_RETRY_DELAY_MS: u64 = 2000;

/// Milliseconds to wait before retrying a manual host.
pub const MANUAL_RETRY_DELAY_MS: u64 = 3000;

/// Milliseconds to wait before reconnecting after an automatic link broke.
pub const RECONNECT_DELAY_MS: u64 = 700;

/// Milliseconds to wait before the next round: a manual host is retried after
/// the manual delay; otherwise a broken link is retried sooner than a failed
/// search.
pub fn retry_delay_ms(manual_host: bool, after_disconnect: bool) -> (r: u64)
    ensures
        r == if manual_host {
            MANUAL_RETRY_DELAY_MS
        } else if after_disconnect {
            RECONNECT_DELAY_MS
        } else {
            AUTO_RETRY_DELAY_MS
        },
{
    if manual_host {
        MANUAL_RETRY_DELAY_MS
    } else if after_disconnect {
        RECONNECT_DELAY_MS
    } else {
        AUTO_RETRY_DELAY_MS
    }
}

/// A host status as the client shows it: on the local clock, in the client
/// role, connected through `endpoint`, keeping the client's own preferred
/// address and host list.
pub fn adopt_remote_status(
    remote: RuntimeStatus,
    local: RuntimeStatus,
    endpoint: String,
    clock_offset_ms: i64,
) -> (r: RuntimeStatus)
    requires
        can_shift(remote.playback.observed_at_ms, clock_offset_ms),
    ensures
        r == (RuntimeStatus {
            role: AppRole::Client,
            connection: ConnectionState::Connected,
            connection_error: None,
            preferred_server_address: local.preferred_server_address,
            hosts: local.hosts,
            server_address: Some(endpoint),
            playback: crate::models::PlaybackSnapshot {
                observed_at_ms: shifted_observation(
                    remote.playback.observed_at_ms,
                    clock_offset_ms,
                ),
                ..remote.playback
            },
            ..remote
        }),
{
    let mut remote = remote;
    adjust_snapshot_clock(&mut remote, clock_offset_ms);
    remote.role = AppRole::Client;
    remote.connection = ConnectionState::Connected;
    remote.connection_error = None;
    remote.preferred_server_address = local.preferred_server_address;
    remote.hosts = local.hosts;
    remote.server_address = Some(endpoint);
    remote
}

} // verus!
