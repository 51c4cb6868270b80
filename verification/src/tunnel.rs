//! The Cloudflare quick tunnel: reading its URL out of cloudflared's output, and the
//! state the panel shows for it.
use crate::config::MCP_PORT;
use crate::text::{first_match_from, match_at, 
    before_char, chars_of, decimal, ends_with_chars, find_chars, first_match, has_suffix,
    has_prefix, is_whitespace, is_ws, push_decimal, push_str, slice_chars, split_once_char,
    starts_with_chars, str_eq, string_of, trim_end_in, trim_end_set,
};
use vstd::prelude::*;

verus! {

#[derive(Clone, Copy, Debug, PartialEq, Eq, Structural)]
pub enum TunnelState {
    Off,
    Connecting,
    Up,
    Failed,
}

#[derive(Clone, Debug)]
pub struct Tunnel {
    pub state: TunnelState,
    pub url: Option<String>,
    /// True once a URL is minted and until the user copies it. Drives the blue Copy button.
    pub is_new: bool,
    /// Set when a request actually arrives on the tunnel hostname — proof the paste worked.
    pub connected_at: Option<String>,
    pub message: Option<String>,
}

/// The tunnel as plain values.
pub struct TunnelView {
    pub state: TunnelState,
    pub url: Option<Seq<char>>,
    pub is_new: bool,
    pub connected_at: Option<Seq<char>>,
    pub message: Option<Seq<char>>,
}

pub open spec fn opt_view(o: Option<String>) -> Option<Seq<char>> {
    match o {
        Some(s) => Some(s@),
        None => None,
    }
}

impl View for Tunnel {
    type V = TunnelView;

    open spec fn view(&self) -> TunnelView {
        TunnelView {
            state: self.state,
            url: opt_view(self.url),
            is_new: self.is_new,
            connected_at: opt_view(self.connected_at),
            message: opt_view(self.message),
        }
    }
}

/// The hostname of a tunnel URL: what follows `https://` up to the first `/`.
pub open spec fn url_host(url: Option<Seq<char>>) -> Option<Seq<char>> {
    match url {
        Some(u) => if has_prefix(u, "https://"@) { Some(before_char(u.skip(8), '/')) } else { None },
        None => None,
    }
}

/// The tunnel after cloudflared printed `line`: a quick-tunnel URL other than the
/// current one (with the secret path appended) becomes the URL, up and new.
pub open spec fn observed(t: TunnelView, line: Seq<char>, secret: Seq<char>) -> TunnelView {
    match found_url(line) {
        None => t,
        Some(origin) => {
            let full = origin + "/"@ + secret + "/mcp"@;
            if t.url == Some(full) {
                t
            } else {
                TunnelView { url: Some(full), state: TunnelState::Up, is_new: true, ..t }
            }
        },
    }
}

/// The tunnel after the user copied its URL.
pub open spec fn copied(t: TunnelView) -> TunnelView {
    TunnelView { is_new: false, ..t }
}

/// Whether a request with Host header `host` came through our tunnel.
pub open spec fn is_ours(t: TunnelView, host: Seq<char>) -> bool {
    url_host(t.url) == Some(host)
}

/// The tunnel after a request with Host header `host` arrived at `now`: the first one
/// through our hostname records the time.
pub open spec fn noted(t: TunnelView, host: Seq<char>, now: Seq<char>) -> TunnelView {
    if is_ours(t, host) && t.connected_at is None {
        TunnelView { connected_at: Some(now), ..t }
    } else {
        t
    }
}

/// The tunnel as it is before it is started, and after it is stopped.
pub open spec fn is_off(t: Tunnel) -> bool {
    &&& t.state == TunnelState::Off
    &&& t.url is None
    &&& !t.is_new
    &&& t.connected_at is None
    &&& t.message is None
}

pub const INSTALL_HINT: &'static str = "cloudflared isn't installed. Run: winget install --id Cloudflare.cloudflared";

impl Default for Tunnel {
    fn default() -> (t: Tunnel)
        ensures
            is_off(t),
    {
        Tunnel { state: TunnelState::Off, url: None, is_new: false, connected_at: None, message: None }
    }
}

impl Tunnel {
    /// The hostname alone, for matching the Host header of incoming requests.
    pub fn host(&self) -> (h: Option<String>)
        ensures
            match url_host(self@.url) {
                Some(x) => h matches Some(s) && s@ == x,
                None => h is None,
            },
    {
        match &self.url {
            Some(u) => {
                let c = chars_of(u.as_str());
                let p = chars_of("https://");
                proof {
                    reveal_strlit("https://");
                }
                if starts_with_chars(c.as_slice(), p.as_slice()) {
                    let rest = slice_chars(c.as_slice(), 8, c.len());
                    assert(rest@ =~= u@.skip(8));
                    let (h, _) = split_once_char(rest.as_slice(), '/');
                    Some(string_of(h.as_slice()))
                } else {
                    None
                }
            },
            None => None,
        }
    }

    /// The tunnel is being (re)started: connecting, with no URL, no connection seen and no
    /// message. Whether the last URL was copied is kept.
    pub fn begin_connecting(&mut self)
        ensures
            *final(self) == (Tunnel {
                state: TunnelState::Connecting,
                url: None,
                connected_at: None,
                message: None,
                ..*old(self)
            }),
    {
        self.state = TunnelState::Connecting;
        self.url = None;
        self.connected_at = None;
        self.message = None;
    }

    /// cloudflared could not be started: failed, with the install hint.
    pub fn spawn_failed(&mut self)
        ensures
            *final(self) == (Tunnel {
                state: TunnelState::Failed,
                message: Some(final(self).message->0),
                ..*old(self)
            }),
            final(self).message matches Some(m) && m@ == INSTALL_HINT@,
    {
        self.state = TunnelState::Failed;
        self.message = Some(INSTALL_HINT.to_owned());
    }

    /// The user copied the URL: it is no longer new.
    pub fn mark_copied(&mut self)
        ensures
            *final(self) == (Tunnel { is_new: false, ..*old(self) }),
            final(self)@ == copied(old(self)@),
    {
        self.is_new = false;
    }

    /// A line of cloudflared's output. When it carries a quick-tunnel URL, the tunnel is
    /// up at that URL plus the secret path, and the URL is new unless it was already the
    /// current one. The answer says whether anything changed.
    pub fn observe_line(&mut self, line: &str, secret: &str) -> (changed: bool)
        ensures
            final(self)@ == observed(old(self)@, line@, secret@),
            changed == (final(self)@ != old(self)@),
            !changed ==> *final(self) == *old(self),
    {
        let origin = match find_url(line) {
            Some(o) => o,
            None => return false,
        };
        let mut full = String::new();
        push_str(&mut full, origin.as_str());
        push_str(&mut full, "/");
        push_str(&mut full, secret);
        push_str(&mut full, "/mcp");
        assert(full@ =~= origin@ + "/"@ + secret@ + "/mcp"@);
        let same = match &self.url {
            Some(u) => str_eq(u.as_str(), full.as_str()),
            None => false,
        };
        if same {
            return false;
        }
        self.url = Some(full);
        self.state = TunnelState::Up;
        self.is_new = true;
        assert(old(self)@.url != final(self)@.url);
        true
    }

    /// A request arrived with Host header `host` at `now` (HH:MM). It is ours when it
    /// names the tunnel's hostname; the first such request records the time.
    /// Answers (ours, first).
    pub fn note_host(&mut self, host: &str, now: String) -> (r: (bool, bool))
        ensures
            r.0 == is_ours(old(self)@, host@),
            r.1 == (r.0 && old(self).connected_at is None),
            final(self)@ == noted(old(self)@, host@, now@),
            r.1 ==> *final(self) == (Tunnel { connected_at: Some(now), ..*old(self) }),
            !r.1 ==> *final(self) == *old(self),
    {
        let ours = match self.host() {
            Some(h) => str_eq(h.as_str(), host),
            None => false,
        };
        let first = ours && self.connected_at.is_none();
        if first {
            self.connected_at = Some(now);
        }
        (ours, first)
    }
}

/// A character that ends a URL in cloudflared's output.
pub open spec fn url_stop(c: char) -> bool {
    is_ws(c) || c == '|' || c == '"'
}

/// The index of the first URL-ending character at or after `i`, or the length.
pub open spec fn first_stop_from(s: Seq<char>, i: int) -> int
    decreases s.len() - i,
{
    if i < 0 || i >= s.len() {
        s.len() as int
    } else if url_stop(s[i]) {
        i
    } else {
        first_stop_from(s, i + 1)
    }
}

/// The quick-tunnel origin in a line of output: from `https://` up to the first space,
/// `|` or `"`, without trailing slashes, and only when it is a `.trycloudflare.com` host.
pub open spec fn found_url(line: Seq<char>) -> Option<Seq<char>> {
    match first_match(line, "https://"@) {
        None => None,
        Some(i) => {
            let rest = line.skip(i);
            let url = trim_end_set(rest.take(first_stop_from(rest, 0)), seq!['/']);
            if has_suffix(url, ".trycloudflare.com"@) {
                Some(url)
            } else {
                None
            }
        },
    }
}

/// A URL seen again after it was copied stays copied; a URL that differs from the
/// current one is new and the tunnel is up.
pub proof fn law_copied_url_stays_copied(t: TunnelView, line: Seq<char>, secret: Seq<char>)
    requires
        found_url(line) is Some,
    ensures
        ({
            let full = found_url(line)->0 + "/"@ + secret + "/mcp"@;
            let seen = observed(t, line, secret);
            let again = observed(copied(seen), line, secret);
            &&& seen.url == Some(full)
            &&& (t.url != Some(full) ==> seen.is_new && seen.state == TunnelState::Up)
            &&& again.url == Some(full)
            &&& !again.is_new
        }),
{
    let full = found_url(line)->0 + "/"@ + secret + "/mcp"@;
    let seen = observed(t, line, secret);
    if t.url == Some(full) {
        assert(seen == t);
    }
}

/// Only a line that carries a quick-tunnel URL other than the current one changes the
/// tunnel, and then it changes only the URL (to that origin plus the secret path), the
/// state (up) and the new-URL flag (set); the connection time and the message stay.
/// A line with no such URL, or with the current one again, leaves the tunnel as it was.
/// When cloudflared cannot be started, the hint names the winget command.
pub proof fn law_only_new_urls_change_the_tunnel(t: TunnelView, line: Seq<char>, secret: Seq<char>)
    ensures
        found_url(line) is None ==> observed(t, line, secret) == t,
        found_url(line) matches Some(o) && t.url == Some(o + "/"@ + secret + "/mcp"@)
            ==> observed(t, line, secret) == t,
        found_url(line) is Some && t.url != Some(found_url(line)->0 + "/"@ + secret + "/mcp"@) ==> {
            let n = observed(t, line, secret);
            &&& n.url == Some(found_url(line)->0 + "/"@ + secret + "/mcp"@)
            &&& n.state == TunnelState::Up
            &&& n.is_new
            &&& n.connected_at == t.connected_at
            &&& n.message == t.message
        },
        INSTALL_HINT@ == "cloudflared isn't installed. Run: winget install --id Cloudflare.cloudflared"@,
{
}

/// Only the first request through our hostname records the connection time: later
/// ones, through any host, leave it as it was.
pub proof fn law_connection_time_kept(t: TunnelView, host: Seq<char>, now: Seq<char>, host2: Seq<char>, now2: Seq<char>)
    requires
        is_ours(t, host),
    ensures
        noted(t, host, now).connected_at is Some,
        t.connected_at is None ==> noted(t, host, now).connected_at == Some(now),
        noted(noted(t, host, now), host2, now2) == noted(t, host, now),
{
}

proof fn lemma_trim_end_set_prefix(s: Seq<char>, set: Seq<char>)
    ensures
        exists|n: int| 0 <= n <= s.len() && trim_end_set(s, set) == s.take(n)
            && (n > 0 ==> !set.contains(s[n - 1])),
    decreases s.len(),
{
    if s.len() > 0 && set.contains(s.last()) {
        lemma_trim_end_set_prefix(s.drop_last(), set);
        let n = choose|n: int| 0 <= n <= s.drop_last().len() && trim_end_set(s.drop_last(), set) == s.drop_last().take(n)
            && (n > 0 ==> !set.contains(s.drop_last()[n - 1]));
        assert(s.drop_last().take(n) =~= s.take(n));
        assert(n > 0 ==> s.drop_last()[n - 1] == s[n - 1]);
    } else {
        assert(s.take(s.len() as int) =~= s);
        if s.len() > 0 {
            assert(s[s.len() - 1] == s.last());
        }
    }
}

proof fn lemma_first_stop(s: Seq<char>, i: int)
    requires
        0 <= i <= s.len(),
    ensures
        i <= first_stop_from(s, i) <= s.len(),
        forall|j: int| i <= j < first_stop_from(s, i) ==> !url_stop(#[trigger] s[j]),
    decreases s.len() - i,
{
    if i < s.len() && !url_stop(s[i]) {
        lemma_first_stop(s, i + 1);
    }
}

/// A URL found in cloudflared's output is an `https://` origin on `.trycloudflare.com`,
/// with no trailing slash and no space, `|` or `"` in it.
pub proof fn law_found_url_shape(line: Seq<char>)
    ensures
        found_url(line) matches Some(u) ==> {
            &&& has_prefix(u, "https://"@)
            &&& has_suffix(u, ".trycloudflare.com"@)
            &&& u.last() != '/'
            &&& forall|j: int| 0 <= j < u.len() ==> !url_stop(#[trigger] u[j])
            &&& first_match(line, "https://"@) matches Some(i) && has_prefix(line.skip(i), u)
        },
        first_match(line, "https://"@) is None ==> found_url(line) is None,
{
    match first_match(line, "https://"@) {
        None => {},
        Some(i) => {
            crate::text::lemma_first_match_bounds(line, "https://"@, 0);
            let rest = line.skip(i);
            lemma_first_stop(rest, 0);
            let stop = first_stop_from(rest, 0);
            let head = rest.take(stop);
            lemma_trim_end_set_prefix(head, seq!['/']);
            let n = choose|n: int| 0 <= n <= head.len() && trim_end_set(head, seq!['/']) == head.take(n)
                && (n > 0 ==> !seq!['/'].contains(head[n - 1]));
            let u = trim_end_set(head, seq!['/']);
            if has_suffix(u, ".trycloudflare.com"@) {
                reveal_strlit(".trycloudflare.com");
                reveal_strlit("https://");
                assert(u.len() >= 18);
                assert(u =~= rest.take(n));
                assert(line.subrange(i, i + 8) == "https://"@);
                assert(u.take(8) =~= line.subrange(i, i + 8));
                assert(u.last() == head[n - 1]);
                assert(head[n - 1] != '/') by {
                    if head[n - 1] == '/' {
                        assert(seq!['/'][0] == '/');
                    }
                }
                assert forall|j: int| 0 <= j < u.len() implies !url_stop(#[trigger] u[j]) by {
                    assert(u[j] == rest[j]);
                }
                assert(rest.take(u.len() as int) =~= u);
            }
        },
    }
}

/// The hostname cloudflared minted is recovered from the tunnel URL built on it: when
/// the found origin has no `/` after `https://`, a request whose Host header is that
/// hostname is one of ours.
pub proof fn law_tunnel_host_recovered(t: TunnelView, line: Seq<char>, secret: Seq<char>)
    requires
        found_url(line) matches Some(o) && !o.skip(8).contains('/'),
    ensures
        ({
            let o = found_url(line)->0;
            &&& url_host(observed(t, line, secret).url) == Some(o.skip(8))
            &&& is_ours(observed(t, line, secret), o.skip(8))
        }),
{
    law_found_url_shape(line);
    let o = found_url(line)->0;
    let full = o + "/"@ + secret + "/mcp"@;
    reveal_strlit("https://");
    assert(o.len() >= 8);
    assert(full.take(8) =~= o.take(8));
    assert(has_prefix(full, "https://"@));
    let h = o.skip(8);
    let rest = full.skip(8);
    assert(rest =~= h + ("/"@ + secret + "/mcp"@));
    reveal_strlit("/");
    assert(rest[h.len() as int] == '/');
    assert forall|j: int| 0 <= j < h.len() implies rest[j] != '/' by {
        assert(rest[j] == h[j]);
        if h[j] == '/' {
            assert(h.contains('/'));
        }
    }
    crate::text::lemma_first_char_at(rest, '/', h.len() as int, 0);
    assert(rest.take(h.len() as int) =~= h);
    assert(observed(t, line, secret).url == Some(full));
}

/// The hostname of a tunnel URL is what follows `https://` up to the first `/`, or to
/// the end when there is none; a URL that is not `https://` has none.
pub proof fn law_url_host(h: Seq<char>, rest: Seq<char>, u: Seq<char>)
    requires
        !h.contains('/'),
    ensures
        url_host(Some("https://"@ + h + "/"@ + rest)) == Some(h),
        url_host(Some("https://"@ + h)) == Some(h),
        !has_prefix(u, "https://"@) ==> url_host(Some(u)) is None,
{
    reveal_strlit("https://");
    reveal_strlit("/");
    let a = "https://"@ + h + "/"@ + rest;
    assert(a.take(8) =~= "https://"@);
    let ra = a.skip(8);
    assert(ra =~= h + "/"@ + rest);
    assert(ra[h.len() as int] == '/');
    assert forall|j: int| 0 <= j < h.len() implies ra[j] != '/' by {
        assert(ra[j] == h[j]);
        if h[j] == '/' {
            assert(h.contains('/'));
        }
    }
    crate::text::lemma_first_char_at(ra, '/', h.len() as int, 0);
    assert(ra.take(h.len() as int) =~= h);
    let b = "https://"@ + h;
    assert(b.take(8) =~= "https://"@);
    let rb = b.skip(8);
    assert(rb =~= h);
    assert forall|j: int| 0 <= j < rb.len() implies !match_at(rb, seq!['/'], j) by {
        if match_at(rb, seq!['/'], j) {
            assert(rb.subrange(j, j + 1)[0] == rb[j]);
            assert(h[j] == '/');
            assert(h.contains('/'));
        }
    }
    crate::text::lemma_no_match_in_prefix(rb, seq!['/'], rb.len() as int, 0);
    assert(rb.take(rb.len() as int) =~= rb);
}

/// A request marks the tunnel connected only when its Host header is the tunnel's
/// hostname and no connection was seen yet; any other request changes nothing.
pub proof fn law_requests_through_our_host(t: TunnelView, h: Seq<char>, rest: Seq<char>, host: Seq<char>, now: Seq<char>)
    requires
        !h.contains('/'),
        t.url == Some("https://"@ + h + "/"@ + rest),
    ensures
        host == h && t.connected_at is None ==> noted(t, host, now) == (TunnelView { connected_at: Some(now), ..t }),
        host != h || t.connected_at is Some ==> noted(t, host, now) == t,
        is_ours(t, host) <==> host == h,
{
    law_url_host(h, rest, h);
}

/// The quick-tunnel origin cloudflared printed on `line`, if any.
pub fn find_url(line: &str) -> (r: Option<String>)
    ensures
        match found_url(line@) {
            Some(u) => r matches Some(s) && s@ == u,
            None => r is None,
        },
{
    let c = chars_of(line);
    let p = chars_of("https://");
    let i = match find_chars(c.as_slice(), p.as_slice()) {
        Some(i) => i,
        None => return None,
    };
    proof {
        crate::text::lemma_first_match_bounds(line@, "https://"@, 0);
    }
    let rest = slice_chars(c.as_slice(), i, c.len());
    assert(rest@ =~= line@.skip(i as int));
    let mut end: usize = 0;
    while end < rest.len() && !(is_whitespace(rest[end]) || rest[end] == '|' || rest[end] == '"')
        invariant
            end <= rest@.len(),
            first_stop_from(rest@, 0) == first_stop_from(rest@, end as int),
        decreases rest@.len() - end,
    {
        end = end + 1;
    }
    let head = slice_chars(rest.as_slice(), 0, end);
    assert(head@ =~= rest@.take(first_stop_from(rest@, 0)));
    let slash: Vec<char> = vec!['/'];
    assert(slash@ =~= seq!['/']);
    let url = trim_end_in(head.as_slice(), slash.as_slice());
    let suffix = chars_of(".trycloudflare.com");
    if ends_with_chars(url.as_slice(), suffix.as_slice()) {
        Some(string_of(url.as_slice()))
    } else {
        None
    }
}

/// Where cloudflared may be installed, checked in this order before relying on PATH.
pub open spec fn cloudflared_candidates() -> Seq<Seq<char>> {
    seq![
        "C:\\Program Files (x86)\\cloudflared\\cloudflared.exe"@,
        "C:\\Program Files\\cloudflared\\cloudflared.exe"@,
    ]
}

/// The default install locations of cloudflared, in the order they are checked.
pub fn cloudflared_locations() -> (v: Vec<&'static str>)
    ensures
        v@.len() == 2,
        v@[0]@ == cloudflared_candidates()[0],
        v@[1]@ == cloudflared_candidates()[1],
{
    vec![
        "C:\\Program Files (x86)\\cloudflared\\cloudflared.exe",
        "C:\\Program Files\\cloudflared\\cloudflared.exe",
    ]
}

/// The cloudflared to run, given which default locations hold it (`installed[i]` for
/// the `i`-th location): the first one that does, else `cloudflared` from PATH. A fresh
/// install is on PATH only for processes started after it.
pub fn cloudflared_path(installed: &[bool]) -> (p: String)
    requires
        installed@.len() == 2,
    ensures
        installed@[0] ==> p@ == cloudflared_candidates()[0],
        !installed@[0] && installed@[1] ==> p@ == cloudflared_candidates()[1],
        !installed@[0] && !installed@[1] ==> p@ == "cloudflared"@,
{
    let locs = cloudflared_locations();
    if installed[0] {
        locs[0].to_owned()
    } else if installed[1] {
        locs[1].to_owned()
    } else {
        "cloudflared".to_owned()
    }
}

/// The local origin cloudflared forwards to: `http://127.0.0.1:8765`.
pub fn loopback_origin() -> (s: String)
    ensures
        s@ == "http://127.0.0.1:"@ + decimal(MCP_PORT as nat),
{
    let mut s = String::new();
    push_str(&mut s, "http://127.0.0.1:");
    push_decimal(&mut s, MCP_PORT as u64);
    assert(s@ =~= "http://127.0.0.1:"@ + decimal(MCP_PORT as nat));
    s
}

/// The Host value a tunnel request is rewritten to: `127.0.0.1:8765`.
pub fn loopback_host() -> (s: String)
    ensures
        s@ == "127.0.0.1:"@ + decimal(MCP_PORT as nat),
{
    let mut s = String::new();
    push_str(&mut s, "127.0.0.1:");
    push_decimal(&mut s, MCP_PORT as u64);
    assert(s@ =~= "127.0.0.1:"@ + decimal(MCP_PORT as nat));
    s
}

/// The arguments cloudflared is started with: a quick tunnel to the MCP server.
pub fn tunnel_args() -> (a: Vec<String>)
    ensures
        a@.len() == 4,
        a@[0]@ == "tunnel"@,
        a@[1]@ == "--url"@,
        a@[2]@ == "http://127.0.0.1:"@ + decimal(MCP_PORT as nat),
        a@[3]@ == "--no-autoupdate"@,
{
    let mut a: Vec<String> = Vec::new();
    a.push("tunnel".to_owned());
    a.push("--url".to_owned());
    a.push(loopback_origin());
    a.push("--no-autoupdate".to_owned());
    a
}

} // verus!
