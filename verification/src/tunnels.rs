//! SSH tunnel bookkeeping: the checks on ids, the table of running tunnels,
//! and the status reported for each.

use vstd::prelude::*;
use crate::cache_sweep::now_ms;
use crate::text::{chars_of, concat, copy_string, has_char, same_text, string_of};

verus! {

/// The state of one forward as the desktop shows it.
#[derive(Debug, PartialEq, Eq)]
pub struct SshTunnelStatus {
    pub forward_id: String,
    pub state: String,
    pub error: Option<String>,
    pub started_at_ms: Option<u64>,
}

pub struct SshTunnelStatusV {
    pub forward_id: Seq<char>,
    pub state: Seq<char>,
    pub error: Option<Seq<char>>,
    pub started_at_ms: Option<u64>,
}

impl View for SshTunnelStatus {
    type V = SshTunnelStatusV;

    open spec fn view(&self) -> SshTunnelStatusV {
        SshTunnelStatusV {
            forward_id: self.forward_id@,
            state: self.state@,
            error: match self.error {
                Some(e) => Some(e@),
                None => None,
            },
            started_at_ms: self.started_at_ms,
        }
    }
}

pub open spec fn stopped_spec(id: Seq<char>) -> SshTunnelStatusV {
    SshTunnelStatusV { forward_id: id, state: "stopped"@, error: None, started_at_ms: None }
}

pub open spec fn running_spec(id: Seq<char>, at: u64) -> SshTunnelStatusV {
    SshTunnelStatusV { forward_id: id, state: "running"@, error: None, started_at_ms: Some(at) }
}

pub open spec fn error_spec(id: Seq<char>, e: Seq<char>) -> SshTunnelStatusV {
    SshTunnelStatusV { forward_id: id, state: "error"@, error: Some(e), started_at_ms: None }
}

impl SshTunnelStatus {
    pub fn stopped(id: &str) -> (r: Self)
        ensures
            r@ == stopped_spec(id@),
    {
        SshTunnelStatus { forward_id: copy_string(id), state: String::from_str("stopped"), error: None, started_at_ms: None }
    }

    pub fn running(id: &str, at: u64) -> (r: Self)
        ensures
            r@ == running_spec(id@, at),
    {
        SshTunnelStatus { forward_id: copy_string(id), state: String::from_str("running"), error: None, started_at_ms: Some(at) }
    }

    pub fn failed(id: &str, e: String) -> (r: Self)
        ensures
            r@ == error_spec(id@, e@),
    {
        SshTunnelStatus { forward_id: copy_string(id), state: String::from_str("error"), error: Some(e), started_at_ms: None }
    }
}

/// A forward id (or host id): 1 to 128 bytes, without NUL, CR, LF, `/` or
/// `\`.
pub open spec fn forward_id_ok(s: Seq<char>) -> bool {
    s.len() > 0 && vstd::utf8::encode_utf8(s).len() <= 128 && !s.contains('\0') && !s.contains('\r')
        && !s.contains('\n') && !s.contains('/') && !s.contains('\\')
}

pub fn validate_forward_id(value: &str) -> (r: Result<(), String>)
    ensures
        forward_id_ok(value@) <==> r is Ok,
        r matches Err(e) ==> e@ == "ssh_forward_id_invalid"@,
{
    let c = chars_of(value);
    if value.is_empty() || value.as_bytes().len() > 128 || has_char(&c, '\0') || has_char(&c, '\r')
        || has_char(&c, '\n') || has_char(&c, '/') || has_char(&c, '\\') {
        return Err(String::from_str("ssh_forward_id_invalid"));
    }
    Ok(())
}

/// The first line of `s` as `str::lines` gives it: up to the first `\n`,
/// without a `\r` just before it; empty for empty text.
pub open spec fn first_line(s: Seq<char>) -> Seq<char> {
    if exists|i: int| 0 <= i < s.len() && s[i] == '\n' {
        let i = choose|i: int| 0 <= i < s.len() && s[i] == '\n' && forall|k: int| 0 <= k < i ==> s[k] != '\n';
        let l = s.take(i);
        if l.len() > 0 && l.last() == '\r' {
            l.drop_last()
        } else {
            l
        }
    } else {
        s
    }
}

/// At most the first 400 characters of `s`.
pub open spec fn take_400(s: Seq<char>) -> Seq<char> {
    if s.len() <= 400 {
        s
    } else {
        s.take(400)
    }
}

/// The text `String::from_utf8_lossy` makes of the bytes: invalid
/// sequences replaced by U+FFFD.
pub uninterp spec fn lossy_text(bytes: Seq<u8>) -> Seq<char>;

/// `String::from_utf8_lossy`.
#[verifier::external_body]
fn utf8_lossy(bytes: &[u8]) -> (r: String)
    ensures
        r@ == lossy_text(bytes@),
{
    String::from_utf8_lossy(bytes).into_owned()
}

/// The first line of `text`, cut at 400 characters.
pub fn summary_of(text: &str) -> (r: String)
    ensures
        r@ == take_400(first_line(text@)),
{
    let c = chars_of(text);
    let mut i: usize = 0;
    while i < c.len() && c[i] != '\n'
        invariant
            i <= c@.len(),
            forall|k: int| 0 <= k < i ==> c@[k] != '\n',
        decreases c.len() - i,
    {
        i = i + 1;
    }
    let mut end = i;
    proof {
        if i < c@.len() {
            let j = choose|j: int| 0 <= j < c@.len() && c@[j] == '\n' && forall|k: int| 0 <= k < j ==> c@[k] != '\n';
            if j < i {
                assert(c@[j] != '\n');
            }
            if j > i {
                assert(c@[i as int] != '\n');
            }
        }
    }
    if i < c.len() && i > 0 && c[i - 1] == '\r' {
        end = i - 1;
    }
    let cut = if end > 400 { 400 } else { end };
    let r = string_of(&c, 0, cut);
    proof {
        let l = c@.take(i as int);
        if i < c@.len() {
            if l.len() > 0 && l.last() == '\r' {
                assert(l.drop_last() =~= c@.take(end as int));
            } else {
                assert(l =~= c@.take(end as int));
            }
        } else {
            assert(c@.take(i as int) =~= c@);
            assert(c@.take(end as int) =~= c@);
        }
        assert(c@.subrange(0, cut as int) =~= take_400(c@.take(end as int)));
    }
    r
}

/// What the tunnel's error output says, as reported: the first line of the
/// lossily decoded bytes, cut at 400 characters.
pub fn stderr_summary(bytes: &[u8]) -> (r: String)
    ensures
        r@ == take_400(first_line(lossy_text(bytes@))),
{
    let text = utf8_lossy(bytes);
    summary_of(text.as_str())
}

/// The error reported for a tunnel that exited: its error output's summary,
/// or `ssh_tunnel_exited: ` and the exit status when that is empty.
pub open spec fn exit_error_spec(summary: Seq<char>, status_text: Seq<char>) -> Seq<char> {
    if summary.len() == 0 {
        "ssh_tunnel_exited: "@ + status_text
    } else {
        summary
    }
}

pub fn exit_error(summary: String, status_text: &str) -> (r: String)
    ensures
        r@ == exit_error_spec(summary@, status_text@),
{
    if summary.as_str().is_empty() {
        concat("ssh_tunnel_exited: ", status_text)
    } else {
        summary
    }
}

/// What probing a tunnel's process found.
pub enum TunnelProbe {
    /// Still running.
    Running,
    /// It exited; the summary of its error output and its exit status.
    Exited { summary: String, status_text: String },
    /// The probe itself failed, with this message.
    Failed { message: String },
}

pub enum TunnelProbeV {
    Running,
    Exited { summary: Seq<char>, status_text: Seq<char> },
    Failed { message: Seq<char> },
}

impl View for TunnelProbe {
    type V = TunnelProbeV;

    open spec fn view(&self) -> TunnelProbeV {
        match self {
            TunnelProbe::Running => TunnelProbeV::Running,
            TunnelProbe::Exited { summary, status_text } => TunnelProbeV::Exited {
                summary: summary@,
                status_text: status_text@,
            },
            TunnelProbe::Failed { message } => TunnelProbeV::Failed { message: message@ },
        }
    }
}

/// A running tunnel: the forward it serves, its host, when it started.
pub struct TunnelRecord {
    pub forward_id: String,
    pub host_id: String,
    pub started_at_ms: u64,
}

spec fn rec_has(s: Seq<TunnelRecord>, k: Seq<char>) -> bool {
    exists|i: int| 0 <= i < s.len() && s[i].forward_id@ == k
}

spec fn rec_view(s: Seq<TunnelRecord>) -> Map<Seq<char>, (Seq<char>, u64)> {
    Map::new(
        |k: Seq<char>| rec_has(s, k),
        |k: Seq<char>| {
            let r = s[choose|i: int| 0 <= i < s.len() && s[i].forward_id@ == k];
            (r.host_id@, r.started_at_ms)
        },
    )
}

spec fn rec_unique(s: Seq<TunnelRecord>) -> bool {
    forall|i: int, j: int| 0 <= i < j < s.len() ==> s[i].forward_id@ != s[j].forward_id@
}

proof fn lemma_rec_at(s: Seq<TunnelRecord>, i: int)
    requires
        rec_unique(s),
        0 <= i < s.len(),
    ensures
        rec_view(s).contains_key(s[i].forward_id@),
        rec_view(s)[s[i].forward_id@] == (s[i].host_id@, s[i].started_at_ms),
{
    let k = s[i].forward_id@;
    assert(rec_has(s, k));
    let c = choose|j: int| 0 <= j < s.len() && s[j].forward_id@ == k;
    if c != i {
        if c < i {
            assert(s[c].forward_id@ != s[i].forward_id@);
        } else {
            assert(s[i].forward_id@ != s[c].forward_id@);
        }
    }
}

proof fn lemma_rec_remove(s: Seq<TunnelRecord>, i: int)
    requires
        rec_unique(s),
        0 <= i < s.len(),
    ensures
        rec_unique(s.remove(i)),
        rec_view(s.remove(i)) == rec_view(s).remove(s[i].forward_id@),
{
    let t = s.remove(i);
    let k0 = s[i].forward_id@;
    assert forall|a: int, b: int| 0 <= a < b < t.len() implies t[a].forward_id@ != t[b].forward_id@ by {
        let a2 = if a < i { a } else { a + 1 };
        let b2 = if b < i { b } else { b + 1 };
        assert(t[a] == s[a2] && t[b] == s[b2]);
    }
    assert forall|k: Seq<char>| #[trigger] rec_has(t, k) <==> (rec_has(s, k) && k != k0) by {
        if rec_has(t, k) {
            let a = choose|a: int| 0 <= a < t.len() && t[a].forward_id@ == k;
            let a2 = if a < i { a } else { a + 1 };
            assert(t[a] == s[a2]);
            if k == k0 {
                if a2 < i {
                    assert(s[a2].forward_id@ != s[i].forward_id@);
                } else {
                    assert(s[i].forward_id@ != s[a2].forward_id@);
                }
            }
        }
        if rec_has(s, k) && k != k0 {
            let a = choose|a: int| 0 <= a < s.len() && s[a].forward_id@ == k;
            assert(a != i);
            let a2 = if a < i { a } else { a - 1 };
            assert(t[a2] == s[a]);
        }
    }
    assert forall|k: Seq<char>| #[trigger] rec_view(t).contains_key(k) implies rec_view(t)[k] == rec_view(s)[k] by {
        let a = choose|a: int| 0 <= a < t.len() && t[a].forward_id@ == k;
        let a2 = if a < i { a } else { a + 1 };
        assert(t[a] == s[a2]);
        lemma_rec_at(t, a);
        lemma_rec_at(s, a2);
    }
    assert(rec_view(t) =~= rec_view(s).remove(k0));
}

proof fn lemma_rec_push(s: Seq<TunnelRecord>, p: TunnelRecord)
    requires
        rec_unique(s),
        !rec_has(s, p.forward_id@),
    ensures
        rec_unique(s.push(p)),
        rec_view(s.push(p)) == rec_view(s).insert(p.forward_id@, (p.host_id@, p.started_at_ms)),
{
    let t = s.push(p);
    let k0 = p.forward_id@;
    assert forall|a: int, b: int| 0 <= a < b < t.len() implies t[a].forward_id@ != t[b].forward_id@ by {
        if b == s.len() {
            assert(t[a] == s[a]);
        } else {
            assert(t[a] == s[a] && t[b] == s[b]);
        }
    }
    assert forall|k: Seq<char>| #[trigger] rec_has(t, k) <==> (rec_has(s, k) || k == k0) by {
        if rec_has(t, k) {
            let a = choose|a: int| 0 <= a < t.len() && t[a].forward_id@ == k;
            if a < s.len() {
                assert(t[a] == s[a]);
            }
        }
        if rec_has(s, k) {
            let a = choose|a: int| 0 <= a < s.len() && s[a].forward_id@ == k;
            assert(t[a] == s[a]);
        }
        if k == k0 {
            assert(t[s.len() as int] == p);
        }
    }
    assert forall|k: Seq<char>| #[trigger] rec_view(t).contains_key(k) implies rec_view(t)[k] == rec_view(s).insert(
        k0,
        (p.host_id@, p.started_at_ms),
    )[k] by {
        let a = choose|a: int| 0 <= a < t.len() && t[a].forward_id@ == k;
        lemma_rec_at(t, a);
        if a < s.len() {
            assert(t[a] == s[a]);
            lemma_rec_at(s, a);
        }
    }
    assert(rec_view(t) =~= rec_view(s).insert(k0, (p.host_id@, p.started_at_ms)));
}

/// The tunnels running, by forward id: the host each serves and when it
/// started.
pub struct SshTunnelManager {
    records: Vec<TunnelRecord>,
}

impl View for SshTunnelManager {
    type V = Map<Seq<char>, (Seq<char>, u64)>;

    closed spec fn view(&self) -> Map<Seq<char>, (Seq<char>, u64)> {
        rec_view(self.records@)
    }
}

impl SshTunnelManager {
    #[verifier::type_invariant]
    closed spec fn wf(self) -> bool {
        rec_unique(self.records@)
    }

    pub fn new() -> (r: Self)
        ensures
            r@ == Map::<Seq<char>, (Seq<char>, u64)>::empty(),
    {
        let r = SshTunnelManager { records: Vec::new() };
        assert(r@ =~= Map::<Seq<char>, (Seq<char>, u64)>::empty());
        r
    }

    fn position(&self, forward_id: &str) -> (r: Option<usize>)
        ensures
            match r {
                Some(i) => i < self.records@.len() && self.records@[i as int].forward_id@ == forward_id@,
                None => forall|i: int| 0 <= i < self.records@.len() ==> self.records@[i].forward_id@ != forward_id@,
            },
    {
        let mut i: usize = 0;
        while i < self.records.len()
            invariant
                i <= self.records@.len(),
                forall|k: int| 0 <= k < i ==> self.records@[k].forward_id@ != forward_id@,
            decreases self.records.len() - i,
        {
            if same_text(self.records[i].forward_id.as_str(), forward_id) {
                return Some(i);
            }
            i = i + 1;
        }
        None
    }

    /// When the tunnel of this forward started, if one is recorded.
    pub fn started_at(&self, forward_id: &str) -> (r: Option<u64>)
        ensures
            match r {
                Some(t) => self@.contains_key(forward_id@) && self@[forward_id@].1 == t,
                None => !self@.contains_key(forward_id@),
            },
    {
        proof {
            use_type_invariant(self);
        }
        match self.position(forward_id) {
            Some(i) => {
                proof {
                    lemma_rec_at(self.records@, i as int);
                }
                Some(self.records[i].started_at_ms)
            },
            None => {
                proof {
                    if self@.contains_key(forward_id@) {
                        let i = choose|i: int| 0 <= i < self.records@.len() && self.records@[i].forward_id@ == forward_id@;
                    }
                }
                None
            },
        }
    }

    /// Forgets the tunnel of this forward; whether one was recorded.
    pub fn remove(&mut self, forward_id: &str) -> (r: bool)
        ensures
            r == old(self)@.contains_key(forward_id@),
            final(self)@ == old(self)@.remove(forward_id@),
    {
        proof {
            use_type_invariant(&*self);
        }
        let ghost s = self.records@;
        match self.position(forward_id) {
            Some(i) => {
                proof {
                    lemma_rec_at(s, i as int);
                    lemma_rec_remove(s, i as int);
                }
                let mut v: Vec<TunnelRecord> = Vec::new();
                std::mem::swap(&mut v, &mut self.records);
                let _ = v.remove(i);
                self.records = v;
                true
            },
            None => {
                proof {
                    if self@.contains_key(forward_id@) {
                        let i = choose|i: int| 0 <= i < s.len() && s[i].forward_id@ == forward_id@;
                    }
                    assert(self@ =~= self@.remove(forward_id@));
                }
                false
            },
        }
    }

    /// Records a tunnel that started at `started_at_ms`, replacing any
    /// record of the same forward.
    pub fn record(&mut self, forward_id: &str, host_id: &str, started_at_ms: u64)
        ensures
            final(self)@ == old(self)@.insert(forward_id@, (host_id@, started_at_ms)),
    {
        self.remove(forward_id);
        proof {
            use_type_invariant(&*self);
        }
        let ghost s = self.records@;
        proof {
            assert(!rec_has(s, forward_id@)) by {
                if rec_has(s, forward_id@) {
                    assert(rec_view(s).contains_key(forward_id@));
                }
            }
        }
        let p = TunnelRecord { forward_id: copy_string(forward_id), host_id: copy_string(host_id), started_at_ms };
        proof {
            lemma_rec_push(s, p);
        }
        let mut v: Vec<TunnelRecord> = Vec::new();
        std::mem::swap(&mut v, &mut self.records);
        v.push(p);
        self.records = v;
        proof {
            assert(old(self)@.remove(forward_id@).insert(forward_id@, (host_id@, started_at_ms)) =~= old(self)@.insert(
                forward_id@,
                (host_id@, started_at_ms),
            ));
        }
    }

    /// Records a tunnel that has just been started, at the current time,
    /// and reports it running.
    pub fn record_started(&mut self, forward_id: &str, host_id: &str) -> (r: SshTunnelStatus)
        ensures
            exists|t: u64| #[trigger] running_spec(forward_id@, t) == r@ && final(self)@ == old(self)@.insert(forward_id@, (host_id@, t)),
    {
        let t = now_ms();
        self.record(forward_id, host_id, t);
        let r = SshTunnelStatus::running(forward_id, t);
        proof {
            assert(running_spec(forward_id@, t) == r@);
        }
        r
    }

    /// What `start` does with an existing record of the forward, given
    /// whether its process still runs: a running tunnel is reported as it
    /// is; an exited one is forgotten so that a new one can start.
    pub fn existing(&mut self, forward_id: &str, still_running: bool) -> (r: Option<SshTunnelStatus>)
        ensures
            old(self)@.contains_key(forward_id@) && still_running ==> (r matches Some(s) && s@ == running_spec(
                forward_id@,
                old(self)@[forward_id@].1,
            )) && final(self)@ == old(self)@,
            !(old(self)@.contains_key(forward_id@) && still_running) ==> r is None && final(self)@ == old(
                self,
            )@.remove(forward_id@),
    {
        match self.started_at(forward_id) {
            Some(t) => {
                if still_running {
                    return Some(SshTunnelStatus::running(forward_id, t));
                }
                self.remove(forward_id);
                None
            },
            None => {
                self.remove(forward_id);
                None
            },
        }
    }

    /// The status of a forward, given what probing its process found (the
    /// probe counts only when a tunnel is recorded): stopped when none is;
    /// running with its start time; or an error, and the record forgotten,
    /// when it exited or could not be probed.
    pub fn status_after(&mut self, forward_id: &str, probe: TunnelProbe) -> (r: SshTunnelStatus)
        ensures
            !old(self)@.contains_key(forward_id@) ==> r@ == stopped_spec(forward_id@) && final(self)@ == old(self)@,
            old(self)@.contains_key(forward_id@) ==> match probe@ {
                TunnelProbeV::Running => r@ == running_spec(forward_id@, old(self)@[forward_id@].1)
                    && final(self)@ == old(self)@,
                TunnelProbeV::Exited { summary, status_text } => r@ == error_spec(
                    forward_id@,
                    exit_error_spec(summary, status_text),
                ) && final(self)@ == old(self)@.remove(forward_id@),
                TunnelProbeV::Failed { message } => r@ == error_spec(forward_id@, message)
                    && final(self)@ == old(self)@.remove(forward_id@),
            },
    {
        match self.started_at(forward_id) {
            None => SshTunnelStatus::stopped(forward_id),
            Some(t) => match probe {
                TunnelProbe::Running => SshTunnelStatus::running(forward_id, t),
                TunnelProbe::Exited { summary, status_text } => {
                    self.remove(forward_id);
                    SshTunnelStatus::failed(forward_id, exit_error(summary, status_text.as_str()))
                },
                TunnelProbe::Failed { message } => {
                    self.remove(forward_id);
                    SshTunnelStatus::failed(forward_id, message)
                },
            },
        }
    }

    /// Stops the forward's tunnel: the id is checked, any record forgotten,
    /// and the forward reported stopped.
    pub fn stop(&mut self, forward_id: &str) -> (r: Result<SshTunnelStatus, String>)
        ensures
            !forward_id_ok(forward_id@) ==> (r matches Err(e) && e@ == "ssh_forward_id_invalid"@) && final(self)@
                == old(self)@,
            forward_id_ok(forward_id@) ==> (r matches Ok(s) && s@ == stopped_spec(forward_id@)) && final(self)@
                == old(self)@.remove(forward_id@),
    {
        validate_forward_id(forward_id)?;
        self.remove(forward_id);
        Ok(SshTunnelStatus::stopped(forward_id))
    }

    /// The ids of the forwards served for this host; none for an empty host.
    pub fn ids_for_host(&self, host_id: &str) -> (r: Vec<String>)
        ensures
            host_id@.len() == 0 ==> r@.len() == 0,
            host_id@.len() > 0 ==> (forall|k: Seq<char>| #[trigger] self@.contains_key(k) && self@[k].0 == host_id@
                ==> exists|i: int| 0 <= i < r@.len() && r@[i]@ == k),
            forall|i: int| 0 <= i < r@.len() ==> self@.contains_key(#[trigger] r@[i]@) && self@[r@[i]@].0
                == host_id@,
    {
        proof {
            use_type_invariant(self);
        }
        let mut out: Vec<String> = Vec::new();
        if host_id.is_empty() {
            return out;
        }
        let mut i: usize = 0;
        while i < self.records.len()
            invariant
                rec_unique(self.records@),
                i <= self.records@.len(),
                forall|j: int| 0 <= j < out@.len() ==> self@.contains_key(#[trigger] out@[j]@) && self@[out@[j]@].0
                    == host_id@,
                forall|k: int| 0 <= k < i && self.records@[k].host_id@ == host_id@ ==> exists|j: int|
                    0 <= j < out@.len() && out@[j]@ == #[trigger] self.records@[k].forward_id@,
            decreases self.records.len() - i,
        {
            if same_text(self.records[i].host_id.as_str(), host_id) {
                proof {
                    lemma_rec_at(self.records@, i as int);
                }
                let ghost before = out@;
                out.push(copy_string(self.records[i].forward_id.as_str()));
                proof {
                    assert(out@[before.len() as int]@ == self.records@[i as int].forward_id@);
                    assert forall|k: int| 0 <= k < i + 1 && self.records@[k].host_id@ == host_id@ implies exists|j: int|
                        0 <= j < out@.len() && out@[j]@ == #[trigger] self.records@[k].forward_id@ by {
                        if k < i {
                            let j = choose|j: int| 0 <= j < before.len() && before[j]@ == self.records@[k].forward_id@;
                            assert(out@[j] == before[j]);
                        } else {
                            assert(out@[before.len() as int]@ == self.records@[k].forward_id@);
                        }
                    }
                }
            }
            i = i + 1;
        }
        proof {
            assert forall|k: Seq<char>| #[trigger] self@.contains_key(k) && self@[k].0 == host_id@ implies exists|i: int|
                0 <= i < out@.len() && out@[i]@ == k by {
                let a = choose|a: int| 0 <= a < self.records@.len() && self.records@[a].forward_id@ == k;
                lemma_rec_at(self.records@, a);
            }
        }
        out
    }

    /// The ids of all recorded forwards, which are then forgotten.
    pub fn drain(&mut self) -> (r: Vec<String>)
        ensures
            final(self)@ == Map::<Seq<char>, (Seq<char>, u64)>::empty(),
            forall|k: Seq<char>| #[trigger] old(self)@.contains_key(k) ==> exists|i: int| 0 <= i < r@.len() && r@[i]@ == k,
            forall|i: int| 0 <= i < r@.len() ==> old(self)@.contains_key(#[trigger] r@[i]@),
    {
        proof {
            use_type_invariant(&*self);
        }
        let ghost s = self.records@;
        let mut out: Vec<String> = Vec::new();
        let mut i: usize = 0;
        while i < self.records.len()
            invariant
                self.records@ == s,
                rec_unique(s),
                i <= s.len(),
                out@.len() == i,
                forall|j: int| 0 <= j < i ==> (#[trigger] out@[j])@ == s[j].forward_id@,
            decreases self.records.len() - i,
        {
            out.push(copy_string(self.records[i].forward_id.as_str()));
            i = i + 1;
        }
        let mut v: Vec<TunnelRecord> = Vec::new();
        std::mem::swap(&mut v, &mut self.records);
        proof {
            assert(self@ =~= Map::<Seq<char>, (Seq<char>, u64)>::empty());
            assert forall|k: Seq<char>| #[trigger] rec_view(s).contains_key(k) implies exists|i: int| 0 <= i < out@.len() && out@[i]@ == k by {
                let a = choose|a: int| 0 <= a < s.len() && s[a].forward_id@ == k;
                assert(out@[a]@ == k);
            }
            assert forall|i: int| 0 <= i < out@.len() implies rec_view(s).contains_key(#[trigger] out@[i]@) by {
                lemma_rec_at(s, i);
            }
        }
        out
    }
}


pub open spec fn strings_view(v: Seq<String>) -> Seq<Seq<char>> {
    v.map_values(|s: String| s@)
}

pub open spec fn probes_view(v: Seq<TunnelProbe>) -> Seq<TunnelProbeV> {
    v.map_values(|p: TunnelProbe| p@)
}

/// `k` is one of the first `i` ids.
pub open spec fn in_prefix(ids: Seq<Seq<char>>, i: int, k: Seq<char>) -> bool {
    exists|j: int| 0 <= j < i && ids[j] == k
}

/// The error `start` reports when the tunnel it started did not come up.
pub open spec fn start_failure_spec(p: TunnelProbeV) -> Seq<char> {
    match p {
        TunnelProbeV::Running => Seq::empty(),
        TunnelProbeV::Exited { summary, status_text } => exit_error_spec(summary, status_text),
        TunnelProbeV::Failed { message } => "ssh_tunnel_start_failed: "@ + message,
    }
}

/// The status `status` reports given what the probe found.
pub open spec fn status_spec(m: Map<Seq<char>, (Seq<char>, u64)>, id: Seq<char>, p: TunnelProbeV) -> (
    SshTunnelStatusV,
    Map<Seq<char>, (Seq<char>, u64)>,
) {
    if !m.contains_key(id) {
        (stopped_spec(id), m)
    } else {
        match p {
            TunnelProbeV::Running => (running_spec(id, m[id].1), m),
            TunnelProbeV::Exited { summary, status_text } => (
                error_spec(id, exit_error_spec(summary, status_text)),
                m.remove(id),
            ),
            TunnelProbeV::Failed { message } => (error_spec(id, message), m.remove(id)),
        }
    }
}

/// The statuses `list` reports, from the `i`-th forward on: the first
/// invalid id fails the whole list.
pub open spec fn list_spec(m: Map<Seq<char>, (Seq<char>, u64)>, ids: Seq<Seq<char>>, probes: Seq<TunnelProbeV>, i: int) -> (
    Result<Seq<SshTunnelStatusV>, Seq<char>>,
    Map<Seq<char>, (Seq<char>, u64)>,
)
    decreases ids.len() - i,
{
    if i < 0 || i >= ids.len() || i >= probes.len() {
        (Ok(Seq::empty()), m)
    } else if !forward_id_ok(ids[i]) {
        (Err("ssh_forward_id_invalid"@), m)
    } else {
        let (s, m2) = status_spec(m, ids[i], probes[i]);
        let (rest, m3) = list_spec(m2, ids, probes, i + 1);
        match rest {
            Ok(v) => (Ok(seq![s] + v), m3),
            Err(e) => (Err(e), m3),
        }
    }
}

impl SshTunnelManager {
    /// The checks `start` makes before anything else, and what it does with
    /// an existing record of the forward given whether its process still
    /// runs: `Ok(Some(..))` when that tunnel is reported as running,
    /// `Ok(None)` when a new one is to be started (any exited record
    /// forgotten).
    pub fn start(&mut self, host_id: &str, forward_id: &str, still_running: bool) -> (r: Result<Option<SshTunnelStatus>, String>)
        ensures
            !(forward_id_ok(host_id@) && forward_id_ok(forward_id@)) ==> (r matches Err(e) && e@
                == "ssh_forward_id_invalid"@) && final(self)@ == old(self)@,
            forward_id_ok(host_id@) && forward_id_ok(forward_id@) ==> if old(self)@.contains_key(forward_id@)
                && still_running {
                (r matches Ok(Some(s)) && s@ == running_spec(forward_id@, old(self)@[forward_id@].1))
                    && final(self)@ == old(self)@
            } else {
                r matches Ok(None) && final(self)@ == old(self)@.remove(forward_id@)
            },
    {
        validate_forward_id(host_id)?;
        validate_forward_id(forward_id)?;
        Ok(self.existing(forward_id, still_running))
    }

    /// What `start` reports once the new tunnel's process was probed: a
    /// running tunnel is recorded at the current time; one that exited or
    /// could not be probed is an error.
    pub fn started(&mut self, host_id: &str, forward_id: &str, probe: TunnelProbe) -> (r: Result<SshTunnelStatus, String>)
        ensures
            probe@ is Running ==> exists|t: u64| (r matches Ok(s) && #[trigger] running_spec(forward_id@, t) == s@)
                && final(self)@ == old(self)@.insert(forward_id@, (host_id@, t)),
            !(probe@ is Running) ==> (r matches Err(e) && e@ == start_failure_spec(probe@)) && final(self)@
                == old(self)@,
    {
        match probe {
            TunnelProbe::Running => Ok(self.record_started(forward_id, host_id)),
            TunnelProbe::Exited { summary, status_text } => Err(exit_error(summary, status_text.as_str())),
            TunnelProbe::Failed { message } => Err(concat("ssh_tunnel_start_failed: ", message.as_str())),
        }
    }

    /// The status of a forward (see `status_spec`), after the id's check.
    pub fn status(&mut self, forward_id: &str, probe: TunnelProbe) -> (r: Result<SshTunnelStatus, String>)
        ensures
            !forward_id_ok(forward_id@) ==> (r matches Err(e) && e@ == "ssh_forward_id_invalid"@) && final(self)@
                == old(self)@,
            forward_id_ok(forward_id@) ==> (r matches Ok(s) && s@ == status_spec(old(self)@, forward_id@, probe@).0)
                && final(self)@ == status_spec(old(self)@, forward_id@, probe@).1,
    {
        validate_forward_id(forward_id)?;
        Ok(self.status_after(forward_id, probe))
    }

    /// Forgets every tunnel and hands back their forward ids.
    pub fn stop_all(&mut self) -> (r: Vec<String>)
        ensures
            final(self)@ == Map::<Seq<char>, (Seq<char>, u64)>::empty(),
            forall|k: Seq<char>| #[trigger] old(self)@.contains_key(k) ==> exists|i: int| 0 <= i < r@.len() && r@[i]@ == k,
            forall|i: int| 0 <= i < r@.len() ==> old(self)@.contains_key(#[trigger] r@[i]@),
    {
        self.drain()
    }

    /// Forgets the tunnels served for this host (none for an empty host) and
    /// hands back the forward id of every one it forgot, so that each can be
    /// stopped.
    pub fn stop_for_host(&mut self, host_id: &str) -> (r: Vec<String>)
        ensures
            host_id@.len() == 0 ==> r@.len() == 0 && final(self)@ == old(self)@,
            host_id@.len() > 0 ==> final(self)@ == old(self)@.restrict(
                old(self)@.dom().filter(|k: Seq<char>| old(self)@[k].0 != host_id@),
            ),
            forall|i: int| 0 <= i < r@.len() ==> old(self)@.contains_key(#[trigger] r@[i]@) && old(self)@[r@[i]@].0
                == host_id@,
            host_id@.len() > 0 ==> forall|k: Seq<char>| #[trigger] old(self)@.contains_key(k) && old(self)@[k].0
                == host_id@ ==> exists|i: int| 0 <= i < r@.len() && r@[i]@ == k,
    {
        let ids = self.ids_for_host(host_id);
        if host_id.is_empty() {
            return ids;
        }
        let ghost m0 = self@;
        let ghost idv = ids@.map_values(|s: String| s@);
        let mut i: usize = 0;
        proof {
            assert(self@ =~= m0.restrict(m0.dom().filter(|k: Seq<char>| !in_prefix(idv, 0, k))));
        }
        while i < ids.len()
            invariant
                host_id@.len() > 0,
                i <= ids@.len(),
                idv == ids@.map_values(|s: String| s@),
                forall|j: int| 0 <= j < ids@.len() ==> m0.contains_key(#[trigger] ids@[j]@) && m0[ids@[j]@].0 == host_id@,
                forall|k: Seq<char>| #[trigger] m0.contains_key(k) && m0[k].0 == host_id@ ==> exists|j: int|
                    0 <= j < ids@.len() && ids@[j]@ == k,
                self@ == m0.restrict(m0.dom().filter(|k: Seq<char>| !in_prefix(idv, i as int, k))),
            decreases ids.len() - i,
        {
            self.remove(ids[i].as_str());
            proof {
                assert forall|k: Seq<char>| #[trigger] in_prefix(idv, i + 1, k) <==> (in_prefix(idv, i as int, k) || k == idv[i as int]) by {
                    if in_prefix(idv, i + 1, k) {
                        let j = choose|j: int| 0 <= j < i + 1 && idv[j] == k;
                    }
                    if k == idv[i as int] {
                        assert(0 <= i < i + 1 && idv[i as int] == k);
                    }
                    if in_prefix(idv, i as int, k) {
                        let j = choose|j: int| 0 <= j < i && idv[j] == k;
                        assert(0 <= j < i + 1 && idv[j] == k);
                    }
                }
                assert(self@ =~= m0.restrict(m0.dom().filter(|k: Seq<char>| !in_prefix(idv, i + 1, k))));
            }
            i = i + 1;
        }
        proof {
            assert(self@ =~= m0.restrict(m0.dom().filter(|k: Seq<char>| m0[k].0 != host_id@))) by {
                assert forall|k: Seq<char>| m0.contains_key(k) implies (!in_prefix(idv, ids@.len() as int, k) <==> m0[k].0 != host_id@) by {
                    if in_prefix(idv, ids@.len() as int, k) {
                        let j = choose|j: int| 0 <= j < ids@.len() && idv[j] == k;
                        assert(idv[j] == ids@[j]@);
                        assert(m0.contains_key(ids@[j]@));
                    }
                    if m0[k].0 == host_id@ {
                        assert(m0.contains_key(k) && m0[k].0 == host_id@);
                        let j = choose|j: int| 0 <= j < ids@.len() && ids@[j]@ == k;
                        assert(idv[j] == k);
                    }
                }
            }
        }
        ids
    }

    /// The statuses of the forwards, each given what probing its process
    /// found (see `list_spec`).
    pub fn list(&mut self, forward_ids: &Vec<String>, probes: Vec<TunnelProbe>) -> (r: Result<Vec<SshTunnelStatus>, String>)
        requires
            forward_ids@.len() == probes@.len(),
        ensures
            match list_spec(old(self)@, strings_view(forward_ids@), probes_view(probes@), 0).0 {
                Ok(v) => r matches Ok(w) && w@.map_values(|s: SshTunnelStatus| s@) == v,
                Err(e) => r matches Err(x) && x@ == e,
            },
            final(self)@ == list_spec(old(self)@, strings_view(forward_ids@), probes_view(probes@), 0).1,
    {
        let ghost ids = strings_view(forward_ids@);
        let ghost ps = probes_view(probes@);
        let ghost m0 = self@;
        let n = forward_ids.len();
        let mut out: Vec<SshTunnelStatus> = Vec::new();
        let mut rest = probes;
        let mut rev: Vec<TunnelProbe> = Vec::new();
        while rest.len() > 0
            invariant
                rest@.map_values(|p: TunnelProbe| p@) + rev@.map_values(|p: TunnelProbe| p@).reverse() == ps,
            decreases rest.len(),
        {
            let p = rest.pop().unwrap();
            let ghost a = rest@.map_values(|p: TunnelProbe| p@);
            let ghost b = rev@.map_values(|p: TunnelProbe| p@);
            rev.push(p);
            proof {
                assert(rev@.map_values(|p: TunnelProbe| p@) =~= b.push(p@));
                assert(b.push(p@).reverse() =~= seq![p@] + b.reverse());
                assert(a.push(p@) + b.reverse() =~= a + (seq![p@] + b.reverse()));
            }
        }
        proof {
            assert(rest@.map_values(|p: TunnelProbe| p@) =~= Seq::<TunnelProbeV>::empty());
            assert(rev@.map_values(|p: TunnelProbe| p@).reverse() =~= ps);
        }
        let mut i: usize = 0;
        let ghost mut acc: Seq<SshTunnelStatusV> = Seq::empty();
        while i < n
            invariant
                n == forward_ids@.len(),
                ids == strings_view(forward_ids@),
                m0 == old(self)@,
                ps == probes_view(probes@),
                ps.len() == n,
                i <= n,
                rev@.len() == n - i,
                rev@.map_values(|p: TunnelProbe| p@).reverse() == ps.skip(i as int),
                out@.map_values(|s: SshTunnelStatus| s@) == acc,
                ({
                    let (r0, f0) = list_spec(m0, ids, ps, 0);
                    let (ri, fi) = list_spec(self@, ids, ps, i as int);
                    f0 == fi && match ri {
                        Ok(v) => r0 == Ok::<Seq<SshTunnelStatusV>, Seq<char>>(acc + v),
                        Err(e) => r0 == Err::<Seq<SshTunnelStatusV>, Seq<char>>(e),
                    }
                }),
            decreases n - i,
        {
            let ghost b = rev@.map_values(|p: TunnelProbe| p@);
            let p = rev.pop().unwrap();
            proof {
                assert(b.reverse()[0] == b[b.len() - 1]);
                assert(ps.skip(i as int)[0] == ps[i as int]);
                assert(p@ == ps[i as int]);
                assert(rev@.map_values(|p: TunnelProbe| p@) =~= b.drop_last());
                assert(b.drop_last().reverse() =~= b.reverse().drop_first());
                assert(ps.skip(i as int).drop_first() =~= ps.skip(i + 1));
                assert(ids[i as int] == forward_ids@[i as int]@);
            }
            let id = forward_ids[i].as_str();
            let ghost m_before = self@;
            match self.status(id, p) {
                Err(e) => {
                    proof {
                        assert(!forward_id_ok(ids[i as int]));
                        assert(list_spec(m_before, ids, ps, i as int).0 == Err::<Seq<SshTunnelStatusV>, Seq<char>>("ssh_forward_id_invalid"@));
                        assert(list_spec(m_before, ids, ps, i as int).1 == m_before);
                        assert(self@ == m_before);
                        let (r0, f0) = list_spec(m0, ids, ps, 0);
                        assert(r0 == Err::<Seq<SshTunnelStatusV>, Seq<char>>("ssh_forward_id_invalid"@));
                        assert(f0 == self@);
                        assert(e@ == "ssh_forward_id_invalid"@);
                    }
                    return Err(e);
                },
                Ok(s) => {
                    proof {
                        let (rest_r, _) = list_spec(self@, ids, ps, i + 1);
                        match rest_r {
                            Ok(v) => {
                                assert(acc + (seq![s@] + v) =~= acc.push(s@) + v);
                            },
                            Err(_) => {},
                        }
                        acc = acc.push(s@);
                    }
                    let ghost before = out@.map_values(|s: SshTunnelStatus| s@);
                    out.push(s);
                    proof {
                        assert(out@.map_values(|s: SshTunnelStatus| s@) =~= before.push(out@[out@.len() - 1]@));
                    }
                },
            }
            i = i + 1;
        }
        proof {
            assert(acc + Seq::<SshTunnelStatusV>::empty() =~= acc);
        }
        Ok(out)
    }
}

/// A stopped forward reports stopped until it is started again, whatever
/// its process shows.
pub proof fn lemma_stopped_reports_stopped(m: Map<Seq<char>, (Seq<char>, u64)>, id: Seq<char>, p: TunnelProbeV)
    ensures
        status_spec(m.remove(id), id, p).0 == stopped_spec(id),
        status_spec(m.remove(id), id, p).1 == m.remove(id),
{
}

/// A started forward reports running, with its start time, while its
/// process runs.
pub proof fn lemma_started_reports_running(m: Map<Seq<char>, (Seq<char>, u64)>, id: Seq<char>, host: Seq<char>, t: u64)
    ensures
        status_spec(m.insert(id, (host, t)), id, TunnelProbeV::Running).0 == running_spec(id, t),
{
}
} // verus!
