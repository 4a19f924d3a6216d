use vstd::prelude::*;

verus! {

/// Where the TLS material for the connection to the company comes from.
pub enum TlsSource {
    /// A directory holding `client.key`, `client.pem` and `ca.pem`.
    Dir(String),
    /// Two-way TLS: the client key, the client certificate and the root CA
    /// certificate, each at its own path.
    Paths { key: String, cert: String, ca: String },
    /// One-way TLS: only the root CA certificate, at this full path.
    ClientCa(String),
}

/// A `TlsSource` taken by the text of its paths.
pub enum TlsSourceView {
    Dir(Seq<char>),
    Paths { key: Seq<char>, cert: Seq<char>, ca: Seq<char> },
    ClientCa(Seq<char>),
}

impl View for TlsSource {
    type V = TlsSourceView;

    open spec fn view(&self) -> TlsSourceView {
        match self {
            TlsSource::Dir(d) => TlsSourceView::Dir(d@),
            TlsSource::Paths { key, cert, ca } => TlsSourceView::Paths { key: key@, cert: cert@, ca: ca@ },
            TlsSource::ClientCa(p) => TlsSourceView::ClientCa(p@),
        }
    }
}

/// An optional text taken by its characters.
pub open spec fn opt_text(o: Option<&str>) -> Option<Seq<char>> {
    match o {
        Some(s) => Some(s@),
        None => None,
    }
}

/// An optional source taken by its view.
pub open spec fn opt_source_view(o: Option<TlsSource>) -> Option<TlsSourceView> {
    match o {
        Some(s) => Some(s@),
        None => None,
    }
}

/// The combinations of TLS options that a client can be set up with: no
/// TLS at all, or exactly one of a TLS directory, the three paths of two-way
/// TLS, or a CA path alone for one-way TLS. A TLS directory together with
/// direct paths is not supported.
pub open spec fn tls_flags_supported(
    no_tls: bool,
    has_dir: bool,
    has_key: bool,
    has_cert: bool,
    has_ca: bool,
) -> bool {
    ||| no_tls
    ||| (has_dir && !has_key && !has_cert && !has_ca)
    ||| (!has_dir && has_key && has_cert && has_ca)
    ||| (!has_dir && !has_key && !has_cert && has_ca)
}

/// The full path of a CA certificate given relative to the home
/// directory: `home/ca` where the home directory is known, `/ca` otherwise.
pub open spec fn ca_full_path(ca: Seq<char>, home: Option<Seq<char>>) -> Seq<char> {
    match home {
        Some(h) => h + "/"@ + ca,
        None => "/"@ + ca,
    }
}

/// The TLS source that supported options select; `None` when TLS is off.
pub open spec fn tls_source_of(
    no_tls: bool,
    dir: Option<Seq<char>>,
    key: Option<Seq<char>>,
    cert: Option<Seq<char>>,
    ca: Option<Seq<char>>,
    home: Option<Seq<char>>,
) -> Option<TlsSourceView> {
    if no_tls {
        None
    } else if dir is Some {
        Some(TlsSourceView::Dir(dir.unwrap()))
    } else if key is Some {
        Some(TlsSourceView::Paths { key: key.unwrap(), cert: cert.unwrap(), ca: ca.unwrap() })
    } else {
        Some(TlsSourceView::ClientCa(ca_full_path(ca.unwrap(), home)))
    }
}

/// Whether a client can be set up with these TLS options. Law: turning TLS
/// off is always accepted, whatever else is given; a TLS directory together
/// with any direct path is refused.
pub fn check_tls_flags(
    no_tls: bool,
    tls_dir: Option<&str>,
    tls_key: Option<&str>,
    tls_cert: Option<&str>,
    tls_ca: Option<&str>,
) -> (ok: bool)
    ensures
        ok == tls_flags_supported(no_tls, tls_dir is Some, tls_key is Some, tls_cert is Some, tls_ca is Some),
        no_tls ==> ok,
        (tls_dir is Some && (tls_key is Some || tls_cert is Some || tls_ca is Some)) ==> ok == no_tls,
{
    if no_tls {
        return true;
    }
    match (tls_dir, tls_key, tls_cert, tls_ca) {
        (Some(_), None, None, None) => true,
        (None, Some(_), Some(_), Some(_)) => true,
        (None, None, None, Some(_)) => true,
        _ => false,
    }
}

/// The path of a file named `name` inside the directory `dir`.
pub open spec fn dir_file(dir: Seq<char>, name: Seq<char>) -> Seq<char> {
    dir + "/"@ + name
}

/// The three files of a TLS directory: the client key `client.key`, the
/// client certificate `client.pem` and the root CA certificate `ca.pem`, in
/// that order.
pub fn tls_dir_files(dir: &str) -> (files: (String, String, String))
    ensures
        files.0@ == dir_file(dir@, "client.key"@),
        files.1@ == dir_file(dir@, "client.pem"@),
        files.2@ == dir_file(dir@, "ca.pem"@),
{
    let mut key = String::from_str(dir);
    key.append("/");
    key.append("client.key");
    let mut cert = String::from_str(dir);
    cert.append("/");
    cert.append("client.pem");
    let mut ca = String::from_str(dir);
    ca.append("/");
    ca.append("ca.pem");
    (key, cert, ca)
}

/// The full path of a CA certificate relative to the home directory.
pub fn ca_path(ca: &str, home: Option<&str>) -> (path: String)
    ensures
        path@ == ca_full_path(ca@, opt_text(home)),
{
    match home {
        Some(h) => {
            let mut path = String::from_str(h);
            path.append("/");
            path.append(ca);
            path
        },
        None => {
            let mut path = String::from_str("/");
            path.append(ca);
            path
        },
    }
}

/// The TLS source that supported options select (`None` when TLS is off).
/// For a CA path alone, the path is taken relative to the home directory.
/// Other option shapes select nothing ("Supporting --tls-dir together with
/// direct paths is not supported yet"); `check_tls_flags` tells a caller
/// beforehand.
pub fn select_tls_source(
    no_tls: bool,
    tls_dir: Option<&str>,
    tls_key: Option<&str>,
    tls_cert: Option<&str>,
    tls_ca: Option<&str>,
    home: Option<&str>,
) -> (source: Option<TlsSource>)
    requires
        tls_flags_supported(no_tls, tls_dir is Some, tls_key is Some, tls_cert is Some, tls_ca is Some),
    ensures
        opt_source_view(source) == tls_source_of(
            no_tls,
            opt_text(tls_dir),
            opt_text(tls_key),
            opt_text(tls_cert),
            opt_text(tls_ca),
            opt_text(home),
        ),
{
    if no_tls {
        return None;
    }
    if let Some(d) = tls_dir {
        return Some(TlsSource::Dir(String::from_str(d)));
    }
    if let (Some(k), Some(c), Some(a)) = (tls_key, tls_cert, tls_ca) {
        return Some(
            TlsSource::Paths { key: String::from_str(k), cert: String::from_str(c), ca: String::from_str(a) },
        );
    }
    Some(TlsSource::ClientCa(ca_path(tls_ca.unwrap(), home)))
}

/// The name under which the server's TLS certificate is checked: the one
/// given, else the domain of the server's address; `None` when neither is
/// known, and then no certificate can be checked.
pub fn tls_domain_name(tls_domain: Option<&str>, host_domain: Option<&str>) -> (name: Option<String>)
    ensures
        name is Some <==> (tls_domain is Some || host_domain is Some),
        name matches Some(n) ==> n@ == (if tls_domain is Some { tls_domain.unwrap()@ } else { host_domain.unwrap()@ }),
{
    match tls_domain {
        Some(d) => Some(String::from_str(d)),
        None => match host_domain {
            Some(h) => Some(String::from_str(h)),
            None => None,
        },
    }
}

/// The kinds of RPC client that can be created.
#[derive(PartialEq, Eq, Structural, Clone, Copy, Debug)]
pub enum ClientKind {
    /// The Private Join and Compute service.
    Pjc,
}

/// The client kind that a client name selects; other names have none.
pub open spec fn client_kind_of(name: Seq<char>) -> Option<ClientKind> {
    if name == "pjc"@ {
        Some(ClientKind::Pjc)
    } else {
        None
    }
}

/// The client kind for a client name: `pjc` only.
pub fn client_kind(name: &String) -> (kind: Option<ClientKind>)
    ensures
        kind == client_kind_of(name@),
{
    if *name == String::from_str("pjc") {
        Some(ClientKind::Pjc)
    } else {
        None
    }
}

/// A `://` starts at position `i` of `s`.
pub open spec fn scheme_sep_at(s: Seq<char>, i: int) -> bool {
    &&& 0 <= i
    &&& i + 3 <= s.len()
    &&& s[i] == ':'
    &&& s[i + 1] == '/'
    &&& s[i + 2] == '/'
}

/// `s` holds a `://`, and so already names its scheme.
pub open spec fn has_scheme_sep(s: Seq<char>) -> bool {
    exists|i: int| #[trigger] scheme_sep_at(s, i)
}

/// The URL scheme of the connection: `http` without TLS, `https` with it.
pub open spec fn url_scheme(no_tls: bool) -> Seq<char> {
    if no_tls {
        "http"@
    } else {
        "https"@
    }
}

/// The URL text for a server address: the address itself where it names
/// its scheme, else the address behind the connection's scheme and `://`.
pub open spec fn url_text(host: Seq<char>, no_tls: bool) -> Seq<char> {
    if has_scheme_sep(host) {
        host
    } else {
        url_scheme(no_tls) + "://"@ + host
    }
}

/// Whether `s` holds a `://`.
fn contains_scheme_sep(s: &str) -> (found: bool)
    ensures
        found == has_scheme_sep(s@),
{
    let n = s.unicode_len();
    let mut i: usize = 0;
    while n - i >= 3
        invariant
            n == s@.len(),
            i <= n,
            forall|j: int| 0 <= j < i ==> !#[trigger] scheme_sep_at(s@, j),
        decreases n - i,
    {
        if s.get_char(i) == ':' && s.get_char(i + 1) == '/' && s.get_char(i + 2) == '/' {
            assert(scheme_sep_at(s@, i as int));
            return true;
        }
        i = i + 1;
    }
    false
}

/// The URL text for a server address, as `url_text` says.
pub fn host_url_text(host: &str, no_tls: bool) -> (text: String)
    ensures
        text@ == url_text(host@, no_tls),
{
    if contains_scheme_sep(host) {
        String::from_str(host)
    } else {
        let mut text = if no_tls {
            String::from_str("http")
        } else {
            String::from_str("https")
        };
        text.append("://");
        text.append(host);
        text
    }
}

/// What `url::Url::parse` makes of a text: `None` where it refuses it, else
/// the parsed URL's text and its domain (`None` for an IP address or a URL
/// without host).
pub uninterp spec fn url_parse_result(text: Seq<char>) -> Option<(Seq<char>, Option<Seq<char>>)>;

/// An optional string taken by its characters.
pub open spec fn opt_string_view(o: Option<String>) -> Option<Seq<char>> {
    match o {
        Some(s) => Some(s@),
        None => None,
    }
}

/// `url::Url::parse`, the parsed URL converted to plain values by
/// `Url::as_str` and `Url::domain`. Trusted: the result is `url_parse_result`
/// of the text (a name; URL parsing is not restated here).
#[verifier::external_body]
fn parse_url(text: &str) -> (res: Option<(String, Option<String>)>)
    ensures
        res is None <==> url_parse_result(text@) is None,
        res matches Some(p) ==> url_parse_result(text@) == Some((p.0@, opt_string_view(p.1))),
{
    match url::Url::parse(text) {
        Ok(u) => Some((u.as_str().to_string(), u.domain().map(str::to_string))),
        Err(_) => None,
    }
}

/// Why no connection target exists for a server address.
#[derive(PartialEq, Eq, Structural, Clone, Copy, Debug)]
pub enum TargetError {
    /// The server's address does not parse as a URL.
    BadHostUrl,
    /// TLS is on, no TLS domain was given and the server's URL has no
    /// domain ("Cannot extract domain neither from host ... nor
    /// --tls-domain arg was specified").
    NoTlsDomain,
}

/// Where and how to connect: the server's URL text, the name to check the
/// server's certificate against (`None` without TLS), and the client kind
/// that the client name selects (`None` for an unknown name).
pub struct ConnectTarget {
    pub url: String,
    pub tls_domain: Option<String>,
    pub kind: Option<ClientKind>,
}

/// A `ConnectTarget` taken by its text.
pub struct ConnectTargetView {
    pub url: Seq<char>,
    pub tls_domain: Option<Seq<char>>,
    pub kind: Option<ClientKind>,
}

impl View for ConnectTarget {
    type V = ConnectTargetView;

    open spec fn view(&self) -> ConnectTargetView {
        ConnectTargetView { url: self.url@, tls_domain: opt_string_view(self.tls_domain), kind: self.kind }
    }
}

/// The connection target for a server address: the address is made a URL
/// and parsed; with TLS, the certificate name is the given TLS domain, else
/// the domain of the URL parsed once more from its text.
pub open spec fn connect_target_of(
    host: Seq<char>,
    no_tls: bool,
    tls_domain: Option<Seq<char>>,
    name: Seq<char>,
) -> Result<ConnectTargetView, TargetError> {
    match url_parse_result(url_text(host, no_tls)) {
        None => Err(TargetError::BadHostUrl),
        Some(parsed) => {
            let url = parsed.0;
            if no_tls {
                Ok(ConnectTargetView { url, tls_domain: None, kind: client_kind_of(name) })
            } else if tls_domain is Some {
                Ok(ConnectTargetView { url, tls_domain, kind: client_kind_of(name) })
            } else {
                match url_parse_result(url_text(url, no_tls)) {
                    None => Err(TargetError::BadHostUrl),
                    Some(again) => match again.1 {
                        None => Err(TargetError::NoTlsDomain),
                        Some(d) => Ok(ConnectTargetView { url, tls_domain: Some(d), kind: client_kind_of(name) }),
                    },
                }
            }
        },
    }
}

/// A connection target taken by its view.
pub open spec fn target_result_view(r: Result<ConnectTarget, TargetError>) -> Result<ConnectTargetView, TargetError> {
    match r {
        Ok(t) => Ok(t@),
        Err(e) => Err(e),
    }
}

/// The connection target for a server address, as `connect_target_of`
/// says, over what `url::Url::parse` gives; the error tells why there is
/// none.
pub fn connect_target(
    host: &str,
    no_tls: bool,
    tls_domain: Option<&str>,
    client_name: &String,
) -> (target: Result<ConnectTarget, TargetError>)
    ensures
        target_result_view(target) == connect_target_of(host@, no_tls, opt_text(tls_domain), client_name@),
{
    let text = host_url_text(host, no_tls);
    let parsed = match parse_url(text.as_str()) {
        Some(p) => p,
        None => return Err(TargetError::BadHostUrl),
    };
    let url = parsed.0;
    let kind = client_kind(client_name);
    if no_tls {
        return Ok(ConnectTarget { url, tls_domain: None, kind });
    }
    let domain = match tls_domain {
        Some(d) => tls_domain_name(Some(d), None),
        None => {
            let again_text = host_url_text(url.as_str(), no_tls);
            match parse_url(again_text.as_str()) {
                None => return Err(TargetError::BadHostUrl),
                Some(again) => match again.1 {
                    None => return Err(TargetError::NoTlsDomain),
                    Some(d) => tls_domain_name(None, Some(d.as_str())),
                },
            }
        },
    };
    Ok(ConnectTarget { url, tls_domain: domain, kind })
}

/// What to do next while connecting.
#[derive(PartialEq, Eq, Structural, Clone, Copy, Debug)]
pub enum ConnectAction {
    /// The client is connected; use it.
    UseClient,
    /// Wait this many milliseconds, then try again.
    RetryAfterMillis(u64),
    /// Give up: the connection failed.
    FailConnect,
    /// Give up: the client name selects no client kind.
    FailWrongClient,
}

/// What follows a failed connection attempt: with TLS, a new attempt after
/// three seconds, without end; without TLS, the end of the attempt.
pub open spec fn failure_action(has_tls: bool) -> ConnectAction {
    if has_tls {
        ConnectAction::RetryAfterMillis(3000)
    } else {
        ConnectAction::FailConnect
    }
}

/// Whether to attempt a connection at all: without TLS, the client kind is
/// needed first; with TLS, it is looked at only once connected.
pub fn should_attempt(has_tls: bool, kind: Option<ClientKind>) -> (go: bool)
    ensures
        go == (has_tls || kind is Some),
{
    has_tls || kind.is_some()
}

/// The decision after a connection attempt. With TLS a failed attempt is
/// retried after three seconds, without end; without TLS it ends the
/// attempt. A connection made is used where the client kind is known.
pub fn after_attempt(has_tls: bool, kind: Option<ClientKind>, connected: bool) -> (action: ConnectAction)
    ensures
        connected && kind is Some ==> action == ConnectAction::UseClient,
        connected && kind is None ==> action == ConnectAction::FailWrongClient,
        !connected ==> action == failure_action(has_tls),
{
    if connected {
        match kind {
            Some(_) => ConnectAction::UseClient,
            None => ConnectAction::FailWrongClient,
        }
    } else if has_tls {
        ConnectAction::RetryAfterMillis(3000)
    } else {
        ConnectAction::FailConnect
    }
}

/// Everything that decides how to connect to the company: the TLS source,
/// the connection target, and what follows a failed attempt.
pub struct ClientPlan {
    pub tls: Option<TlsSource>,
    pub target: ConnectTarget,
    pub on_failure: ConnectAction,
}

/// A `ClientPlan` taken by its views.
pub struct ClientPlanView {
    pub tls: Option<TlsSourceView>,
    pub target: ConnectTargetView,
    pub on_failure: ConnectAction,
}

/// Whether a client can be set up with these options: supported TLS
/// options, a server address, the client name `pjc`, and a server address
/// that parses as a URL, with a certificate name where TLS is on.
pub open spec fn client_setup_possible(
    no_tls: bool,
    host: Option<Seq<char>>,
    dir: Option<Seq<char>>,
    key: Option<Seq<char>>,
    cert: Option<Seq<char>>,
    ca: Option<Seq<char>>,
    tls_domain: Option<Seq<char>>,
    name: Seq<char>,
) -> bool {
    &&& tls_flags_supported(no_tls, dir is Some, key is Some, cert is Some, ca is Some)
    &&& host is Some
    &&& client_kind_of(name) is Some
    &&& connect_target_of(host.unwrap(), no_tls, tls_domain, name) is Ok
}

/// The connection plan for options with which a client can be set up.
pub open spec fn client_plan_of(
    no_tls: bool,
    host: Option<Seq<char>>,
    dir: Option<Seq<char>>,
    key: Option<Seq<char>>,
    cert: Option<Seq<char>>,
    ca: Option<Seq<char>>,
    tls_domain: Option<Seq<char>>,
    name: Seq<char>,
    home: Option<Seq<char>>,
) -> ClientPlanView {
    ClientPlanView {
        tls: tls_source_of(no_tls, dir, key, cert, ca, home),
        target: connect_target_of(host.unwrap(), no_tls, tls_domain, name)->Ok_0,
        on_failure: failure_action(!no_tls),
    }
}

/// A plan taken by its views.
pub open spec fn plan_view(p: ClientPlan) -> ClientPlanView {
    ClientPlanView { tls: opt_source_view(p.tls), target: p.target@, on_failure: p.on_failure }
}

/// The plan for connecting to the company with the given options, as
/// `client_plan_of` says: the TLS source; the server's URL; the certificate
/// name (the given TLS domain, else the URL's domain); the client kind
/// `Pjc`; and, after a failed attempt, a retry every three seconds with TLS
/// or the end of the attempt without. No client can be set up on other
/// inputs; `requires` leaves them out. `check_tls_flags`, `client_kind` and
/// `connect_target` tell a caller beforehand, and `try_create_client` makes
/// those tests itself.
pub fn create_client(
    no_tls: bool,
    host_pre: Option<&str>,
    tls_dir: Option<&str>,
    tls_key: Option<&str>,
    tls_cert: Option<&str>,
    tls_ca: Option<&str>,
    tls_domain: Option<&str>,
    client_name: String,
    home: Option<&str>,
) -> (plan: ClientPlan)
    requires
        client_setup_possible(
            no_tls,
            opt_text(host_pre),
            opt_text(tls_dir),
            opt_text(tls_key),
            opt_text(tls_cert),
            opt_text(tls_ca),
            opt_text(tls_domain),
            client_name@,
        ),
    ensures
        plan_view(plan) == client_plan_of(
            no_tls,
            opt_text(host_pre),
            opt_text(tls_dir),
            opt_text(tls_key),
            opt_text(tls_cert),
            opt_text(tls_ca),
            opt_text(tls_domain),
            client_name@,
            opt_text(home),
        ),
        plan.target.kind == Some(ClientKind::Pjc),
        plan.on_failure == failure_action(plan.tls is Some),
{
    let tls = select_tls_source(no_tls, tls_dir, tls_key, tls_cert, tls_ca, home);
    let host = host_pre.unwrap();
    let target = connect_target(host, no_tls, tls_domain, &client_name).unwrap();
    let on_failure = after_attempt(tls.is_some(), target.kind, false);
    ClientPlan { tls, target, on_failure }
}

/// The connection plan where a client can be set up with the given
/// supported options, else `None` (the server address does not parse as a
/// URL, the client name is not `pjc`, or TLS is on and no certificate name
/// can be found). It makes the URL tests that `create_client` requires.
pub fn try_create_client(
    no_tls: bool,
    host_pre: &str,
    tls_dir: Option<&str>,
    tls_key: Option<&str>,
    tls_cert: Option<&str>,
    tls_ca: Option<&str>,
    tls_domain: Option<&str>,
    client_name: String,
    home: Option<&str>,
) -> (plan: Option<ClientPlan>)
    requires
        tls_flags_supported(no_tls, tls_dir is Some, tls_key is Some, tls_cert is Some, tls_ca is Some),
    ensures
        plan is Some <==> client_setup_possible(
            no_tls,
            Some(host_pre@),
            opt_text(tls_dir),
            opt_text(tls_key),
            opt_text(tls_cert),
            opt_text(tls_ca),
            opt_text(tls_domain),
            client_name@,
        ),
        plan matches Some(p) ==> plan_view(p) == client_plan_of(
            no_tls,
            Some(host_pre@),
            opt_text(tls_dir),
            opt_text(tls_key),
            opt_text(tls_cert),
            opt_text(tls_ca),
            opt_text(tls_domain),
            client_name@,
            opt_text(home),
        ),
{
    if client_kind(&client_name).is_none() {
        return None;
    }
    match connect_target(host_pre, no_tls, tls_domain, &client_name) {
        Err(_) => None,
        Ok(_) => Some(
            create_client(no_tls, Some(host_pre), tls_dir, tls_key, tls_cert, tls_ca, tls_domain, client_name, home),
        ),
    }
}

/// Law: a client can be set up only with supported TLS options; with TLS on
/// and a TLS directory together with direct paths, or no TLS material at
/// all, no server address, client name or TLS domain makes it possible.
pub proof fn lemma_unsupported_tls_refused(
    host: Option<Seq<char>>,
    dir: Option<Seq<char>>,
    key: Option<Seq<char>>,
    cert: Option<Seq<char>>,
    ca: Option<Seq<char>>,
    tls_domain: Option<Seq<char>>,
    name: Seq<char>,
)
    ensures
        !tls_flags_supported(false, dir is Some, key is Some, cert is Some, ca is Some)
            ==> !client_setup_possible(false, host, dir, key, cert, ca, tls_domain, name),
        (dir is Some && (key is Some || cert is Some || ca is Some))
            ==> !client_setup_possible(false, host, dir, key, cert, ca, tls_domain, name),
        (dir is None && key is None && cert is None && ca is None)
            ==> !client_setup_possible(false, host, dir, key, cert, ca, tls_domain, name),
        tls_flags_supported(false, dir is Some, key is Some, cert is Some, ca is Some) ==> {
            &&& (key is Some <==> cert is Some)
            &&& (key is Some ==> ca is Some)
            &&& (dir is Some ==> ca is None && key is None)
            &&& (dir is Some || ca is Some)
        },
        tls_flags_supported(false, true, false, false, false),
        tls_flags_supported(false, false, true, true, true),
        tls_flags_supported(false, false, false, false, true),
{
}

/// Law: an address names its scheme exactly when `://` occurs in it.
pub proof fn lemma_scheme_sep_is_substring(s: Seq<char>)
    ensures
        has_scheme_sep(s) <==> exists|i: int| 0 <= i && i + 3 <= s.len() && #[trigger] s.subrange(i, i + 3) == "://"@,
{
    reveal_strlit("://");
    if has_scheme_sep(s) {
        let i = choose|i: int| #[trigger] scheme_sep_at(s, i);
        assert(s.subrange(i, i + 3) =~= "://"@);
    }
    if exists|i: int| 0 <= i && i + 3 <= s.len() && #[trigger] s.subrange(i, i + 3) == "://"@ {
        let i = choose|i: int| 0 <= i && i + 3 <= s.len() && #[trigger] s.subrange(i, i + 3) == "://"@;
        assert(s.subrange(i, i + 3)[0] == s[i]);
        assert(s.subrange(i, i + 3)[1] == s[i + 1]);
        assert(s.subrange(i, i + 3)[2] == s[i + 2]);
        assert(scheme_sep_at(s, i));
    }
}

/// Law: with TLS off the TLS options, the TLS domain and the home
/// directory change nothing: whether a client can be set up, and its plan,
/// are the same whatever they are, and the plan has no TLS source, no
/// certificate name, and ends the attempt on a failed connection.
pub proof fn lemma_no_tls_ignores_tls_options(
    host: Option<Seq<char>>,
    name: Seq<char>,
    dir1: Option<Seq<char>>,
    key1: Option<Seq<char>>,
    cert1: Option<Seq<char>>,
    ca1: Option<Seq<char>>,
    tls_domain1: Option<Seq<char>>,
    home1: Option<Seq<char>>,
    dir2: Option<Seq<char>>,
    key2: Option<Seq<char>>,
    cert2: Option<Seq<char>>,
    ca2: Option<Seq<char>>,
    tls_domain2: Option<Seq<char>>,
    home2: Option<Seq<char>>,
)
    ensures
        client_setup_possible(true, host, dir1, key1, cert1, ca1, tls_domain1, name)
            == client_setup_possible(true, host, dir2, key2, cert2, ca2, tls_domain2, name),
        client_setup_possible(true, host, dir1, key1, cert1, ca1, tls_domain1, name) ==> {
            &&& client_plan_of(true, host, dir1, key1, cert1, ca1, tls_domain1, name, home1)
                == client_plan_of(true, host, dir2, key2, cert2, ca2, tls_domain2, name, home2)
            &&& client_plan_of(true, host, dir1, key1, cert1, ca1, tls_domain1, name, home1).tls is None
            &&& client_plan_of(true, host, dir1, key1, cert1, ca1, tls_domain1, name, home1).target.tls_domain is None
            &&& client_plan_of(true, host, dir1, key1, cert1, ca1, tls_domain1, name, home1).on_failure
                == ConnectAction::FailConnect
        },
{
}

/// Law: with TLS on, a plan never gives up on a failed connection: it
/// retries after three seconds; and its certificate name is the given TLS
/// domain where one is given.
pub proof fn lemma_tls_plan_retries(
    host: Option<Seq<char>>,
    dir: Option<Seq<char>>,
    key: Option<Seq<char>>,
    cert: Option<Seq<char>>,
    ca: Option<Seq<char>>,
    tls_domain: Option<Seq<char>>,
    name: Seq<char>,
    home: Option<Seq<char>>,
)
    requires
        client_setup_possible(false, host, dir, key, cert, ca, tls_domain, name),
    ensures
        client_plan_of(false, host, dir, key, cert, ca, tls_domain, name, home).on_failure
            == ConnectAction::RetryAfterMillis(3000),
        client_plan_of(false, host, dir, key, cert, ca, tls_domain, name, home).tls is Some,
        tls_domain is Some ==> client_plan_of(false, host, dir, key, cert, ca, tls_domain, name, home).target.tls_domain
            == tls_domain,
        client_plan_of(false, host, dir, key, cert, ca, tls_domain, name, home).target.tls_domain is Some,
{
}


/// Law: the TLS material selected from each accepted shape of options,
/// written out: nothing with TLS off; with TLS on, a TLS directory as given
/// (whatever the home directory), the key, certificate and CA paths as
/// given, or a CA path alone placed under the home directory (`home/ca`,
/// or `/ca` where no home directory is known).
pub proof fn lemma_tls_source_shapes(
    d: Seq<char>,
    k: Seq<char>,
    c: Seq<char>,
    a: Seq<char>,
    h: Seq<char>,
    home: Option<Seq<char>>,
    dir: Option<Seq<char>>,
    key: Option<Seq<char>>,
    cert: Option<Seq<char>>,
    ca: Option<Seq<char>>,
)
    ensures
        tls_source_of(true, dir, key, cert, ca, home) is None,
        tls_source_of(false, Some(d), None, None, None, home) == Some(TlsSourceView::Dir(d)),
        tls_source_of(false, None, Some(k), Some(c), Some(a), home)
            == Some(TlsSourceView::Paths { key: k, cert: c, ca: a }),
        tls_source_of(false, None, None, None, Some(a), Some(h)) == Some(TlsSourceView::ClientCa(h + seq!['/'] + a)),
        tls_source_of(false, None, None, None, Some(a), None) == Some(TlsSourceView::ClientCa(seq!['/'] + a)),
{
    reveal_strlit("/");
    assert(h + "/"@ + a =~= h + seq!['/'] + a);
    assert("/"@ + a =~= seq!['/'] + a);
}

/// Law: a connection plan carries the TLS material of its options: none with
/// TLS off; with TLS on, the directory as given, the two-way key,
/// certificate and CA paths as given, or the CA path alone under the home
/// directory.
pub proof fn lemma_plan_tls_material(
    host: Option<Seq<char>>,
    tls_domain: Option<Seq<char>>,
    name: Seq<char>,
    home: Option<Seq<char>>,
    d: Seq<char>,
    k: Seq<char>,
    c: Seq<char>,
    a: Seq<char>,
    h: Seq<char>,
    dir: Option<Seq<char>>,
    key: Option<Seq<char>>,
    cert: Option<Seq<char>>,
    ca: Option<Seq<char>>,
)
    ensures
        client_plan_of(true, host, dir, key, cert, ca, tls_domain, name, home).tls is None,
        client_plan_of(false, host, Some(d), None, None, None, tls_domain, name, home).tls
            == Some(TlsSourceView::Dir(d)),
        client_plan_of(false, host, None, Some(k), Some(c), Some(a), tls_domain, name, home).tls
            == Some(TlsSourceView::Paths { key: k, cert: c, ca: a }),
        client_plan_of(false, host, None, None, None, Some(a), tls_domain, name, Some(h)).tls
            == Some(TlsSourceView::ClientCa(h + seq!['/'] + a)),
        client_plan_of(false, host, None, None, None, Some(a), tls_domain, name, None).tls
            == Some(TlsSourceView::ClientCa(seq!['/'] + a)),
{
    lemma_tls_source_shapes(d, k, c, a, h, home, dir, key, cert, ca);
    lemma_tls_source_shapes(d, k, c, a, h, Some(h), dir, key, cert, ca);
    lemma_tls_source_shapes(d, k, c, a, h, None, dir, key, cert, ca);
}

/// Law: an address that already names its scheme (holds `://`) is used as
/// given, with TLS on or off; any other address gets `http://` in front
/// without TLS and `https://` with it.
pub proof fn lemma_url_text_keeps_scheme(host: Seq<char>, no_tls: bool)
    ensures
        has_scheme_sep(host) ==> url_text(host, no_tls) == host,
        !has_scheme_sep(host) ==> url_text(host, true) == seq!['h', 't', 't', 'p', ':', '/', '/'] + host,
        !has_scheme_sep(host) ==> url_text(host, false) == seq!['h', 't', 't', 'p', 's', ':', '/', '/'] + host,
{
    reveal_strlit("http");
    reveal_strlit("https");
    reveal_strlit("://");
    assert("http"@ + "://"@ + host =~= seq!['h', 't', 't', 'p', ':', '/', '/'] + host);
    assert("https"@ + "://"@ + host =~= seq!['h', 't', 't', 'p', 's', ':', '/', '/'] + host);
}

/// Law: for an address that already names its scheme, the target's URL is
/// the parsed address itself, and with TLS on and no TLS domain given the
/// certificate name is the domain of that parsed URL's text, parsed again
/// as it stands.
pub proof fn lemma_target_of_schemed_address(host: Seq<char>, no_tls: bool, name: Seq<char>)
    requires
        has_scheme_sep(host),
    ensures
        connect_target_of(host, no_tls, None, name) is Ok ==> url_parse_result(host) is Some
            && connect_target_of(host, no_tls, None, name)->Ok_0.url == url_parse_result(host)->Some_0.0,
        (!no_tls && connect_target_of(host, no_tls, None, name) is Ok
            && has_scheme_sep(connect_target_of(host, no_tls, None, name)->Ok_0.url)) ==> url_parse_result(
            connect_target_of(host, no_tls, None, name)->Ok_0.url,
        ) is Some && connect_target_of(host, no_tls, None, name)->Ok_0.tls_domain == url_parse_result(
            connect_target_of(host, no_tls, None, name)->Ok_0.url,
        )->Some_0.1,
{
    lemma_url_text_keeps_scheme(host, no_tls);
    if connect_target_of(host, no_tls, None, name) is Ok {
        let t = connect_target_of(host, no_tls, None, name)->Ok_0;
        lemma_url_text_keeps_scheme(t.url, no_tls);
    }
}


/// Law: only the client name `pjc` selects a client kind.
pub proof fn lemma_only_pjc_client(name: Seq<char>)
    ensures
        client_kind_of(name) is Some <==> name == seq!['p', 'j', 'c'],
        client_kind_of(name) is Some ==> client_kind_of(name) == Some(ClientKind::Pjc),
{
    reveal_strlit("pjc");
    assert("pjc"@ =~= seq!['p', 'j', 'c']);
}

} // verus!
