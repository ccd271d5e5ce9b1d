use vstd::prelude::*;

use crate::gui::{classify_line, extract_field, spec_classify, spec_extract_field, spec_trailing_field, strip_ansi, strip_from, trailing_field};
use crate::decimal::{dec_string, push_decimal};
use crate::text::{chars_of, contains, contains_seq};

verus! {

/// How many log lines of the service are kept.
pub const CORE_LOG_CAPACITY: usize = 500;

/// Progress of a file sent from this machine.
pub struct SentFile {
    pub name: String,
    pub done: bool,
    pub failed: bool,
}

/// A machine the service reported as connected.
pub struct ConnectedPeer {
    pub device_id: String,
    pub name: String,
}

/// A machine as the device list shows it.
pub struct DeviceSummary {
    pub name: String,
    pub connected: bool,
    pub latency_ms: Option<u32>,
}

/// What the GUI shows of the service.
pub struct CoreSnapshot {
    pub running: bool,
    pub status: String,
    pub log: Vec<String>,
    pub received_files: Vec<String>,
    pub sent_files: Vec<SentFile>,
}

pub open spec fn strs(v: Seq<String>) -> Seq<Seq<char>> {
    v.map_values(|s: String| s@)
}

pub open spec fn sent_view(v: Seq<SentFile>) -> Seq<(Seq<char>, bool, bool)> {
    v.map_values(|f: SentFile| (f.name@, f.done, f.failed))
}

pub open spec fn peer_view(v: Seq<ConnectedPeer>) -> Seq<(Seq<char>, Seq<char>)> {
    v.map_values(|p: ConnectedPeer| (p.device_id@, p.name@))
}

/// The log after `line` is appended, keeping the newest lines only.
pub open spec fn log_after(log: Seq<Seq<char>>, line: Seq<char>) -> Seq<Seq<char>> {
    let l = log.push(line);
    if l.len() > CORE_LOG_CAPACITY {
        l.subrange(l.len() - CORE_LOG_CAPACITY, l.len() as int)
    } else {
        l
    }
}

/// The log never holds more than its capacity, and its newest line is the
/// one just appended.
pub proof fn lemma_log_bounded(log: Seq<Seq<char>>, line: Seq<char>)
    requires
        log.len() <= CORE_LOG_CAPACITY,
    ensures
        log_after(log, line).len() <= CORE_LOG_CAPACITY,
        log_after(log, line).last() == line,
{
}

/// Received files after `line`: a `archivo recibido` line adds its
/// trailing `path=` value once.
pub open spec fn received_after(files: Seq<Seq<char>>, line: Seq<char>) -> Seq<Seq<char>> {
    if contains_seq(line, "archivo recibido"@) {
        match spec_trailing_field(line, "path="@) {
            Some(p) => if p.len() > 0 && !files.contains(p) { files.push(p) } else { files },
            None => files,
        }
    } else {
        files
    }
}

/// Index of the first sent file called `name`, from `i` on.
pub open spec fn find_sent(sent: Seq<(Seq<char>, bool, bool)>, name: Seq<char>, i: int) -> Option<int>
    decreases sent.len() - i,
{
    if i < 0 || i >= sent.len() {
        None
    } else if sent[i].0 == name {
        Some(i)
    } else {
        find_sent(sent, name, i + 1)
    }
}

/// Outgoing files after `line`: a send that starts is (re)listed as in
/// progress, one that ends is marked done, and one that fails is marked
/// failed (and listed if it was not).
pub open spec fn sent_after(sent: Seq<(Seq<char>, bool, bool)>, line: Seq<char>) -> Seq<(Seq<char>, bool, bool)> {
    let name = spec_trailing_field(line, "name="@);
    if contains_seq(line, "enviando archivo"@) && name is Some && name->0.len() > 0 {
        let n = name->0;
        match find_sent(sent, n, 0) {
            Some(i) => sent.update(i, (n, false, false)),
            None => sent.push((n, false, false)),
        }
    } else if contains_seq(line, "archivo enviado"@) && name is Some {
        match find_sent(sent, name->0, 0) {
            Some(i) => sent.update(i, (sent[i].0, true, sent[i].2)),
            None => sent,
        }
    } else if (contains_seq(line, "error leyendo el archivo"@) || contains_seq(line, "no se pudo abrir el archivo a enviar"@))
        && name is Some {
        match find_sent(sent, name->0, 0) {
            Some(i) => sent.update(i, (sent[i].0, sent[i].1, true)),
            None => sent.push((name->0, false, true)),
        }
    } else {
        sent
    }
}

/// `peers` without the ones whose device id is `device`.
pub open spec fn peers_without(peers: Seq<(Seq<char>, Seq<char>)>, device: Seq<char>) -> Seq<(Seq<char>, Seq<char>)>
    decreases peers.len(),
{
    if peers.len() == 0 {
        peers
    } else {
        let r = peers_without(peers.drop_last(), device);
        if peers.last().0 != device {
            r.push(peers.last())
        } else {
            r
        }
    }
}

/// Removing a device's entries keeps every other entry, in order, and
/// drops exactly the entries of that device.
pub proof fn lemma_peers_without_is_filter(peers: Seq<(Seq<char>, Seq<char>)>, device: Seq<char>)
    ensures
        peers_without(peers, device) == peers.filter(|p: (Seq<char>, Seq<char>)| p.0 != device),
    decreases peers.len(),
{
    reveal(Seq::filter);
    if peers.len() > 0 {
        lemma_peers_without_is_filter(peers.drop_last(), device);
    }
}

/// A `peer desconectado device_id=d` line removes from the connected
/// machines exactly those listed with id `d`: afterwards none has id `d`,
/// and every machine with another id is still listed, in the same order.
pub proof fn lemma_disconnect_removes_only_that_device(peers: Seq<(Seq<char>, Seq<char>)>, line: Seq<char>, d: Seq<char>)
    requires
        contains_seq(line, "peer desconectado"@),
        !contains_seq(line, "peer autenticado"@),
        spec_extract_field(line, "device_id="@) == Some(d),
    ensures
        peers_after(peers, line) == peers.filter(|p: (Seq<char>, Seq<char>)| p.0 != d),
        forall|i: int| 0 <= i < peers_after(peers, line).len() ==> (#[trigger] peers_after(peers, line)[i]).0 != d,
{
    lemma_peers_without_is_filter(peers, d);
    let r = peers.filter(|p: (Seq<char>, Seq<char>)| p.0 != d);
    let keep = |p: (Seq<char>, Seq<char>)| p.0 != d;
    assert(r == peers.filter(keep));
    assert forall|i: int| 0 <= i < r.len() implies (#[trigger] r[i]).0 != d by {
        broadcast use vstd::seq_lib::group_filter_ensures;
        assert(keep(peers.filter(keep)[i]));
    }
}

pub open spec fn has_device(peers: Seq<(Seq<char>, Seq<char>)>, device: Seq<char>) -> bool {
    exists|i: int| 0 <= i < peers.len() && peers[i].0 == device
}

/// Connected machines after `line`: an authenticated peer is added once; a
/// disconnected one is removed; connecting to the server (re)lists it
/// under the id `server`, and retrying the connection drops it.
pub open spec fn peers_after(peers: Seq<(Seq<char>, Seq<char>)>, line: Seq<char>) -> Seq<(Seq<char>, Seq<char>)> {
    if contains_seq(line, "peer autenticado"@) {
        match (spec_extract_field(line, "device_id="@), spec_extract_field(line, "name="@)) {
            (Some(d), Some(n)) => if !has_device(peers, d) { peers.push((d, n)) } else { peers },
            _ => peers,
        }
    } else if contains_seq(line, "peer desconectado"@) {
        match spec_extract_field(line, "device_id="@) {
            Some(d) => peers_without(peers, d),
            None => peers,
        }
    } else if contains_seq(line, "conectado al servidor"@) {
        let name = match spec_extract_field(line, "server="@) {
            Some(n) => n,
            None => "Servidor"@,
        };
        peers_without(peers, "server"@).push(("server"@, name))
    } else if contains_seq(line, "reintentando conexión"@) {
        peers_without(peers, "server"@)
    } else {
        peers
    }
}

fn line_has(line: &str, lit: &str) -> (r: bool)
    ensures
        r == contains_seq(line@, lit@),
{
    let c = chars_of(line);
    let needle = chars_of(lit);
    contains(c.as_slice(), needle.as_slice())
}

/// What the GUI knows of the service, rebuilt from its log lines.
pub struct CoreMonitor {
    pub log: Vec<String>,
    pub status: String,
    pub received_files: Vec<String>,
    pub sent_files: Vec<SentFile>,
    pub peers: Vec<ConnectedPeer>,
}

impl CoreMonitor {
    pub fn new() -> (m: CoreMonitor)
        ensures
            m.log@.len() == 0,
            m.status@.len() == 0,
            m.received_files@.len() == 0,
            m.sent_files@.len() == 0,
            m.peers@.len() == 0,
    {
        CoreMonitor {
            log: Vec::new(),
            status: String::new(),
            received_files: Vec::new(),
            sent_files: Vec::new(),
            peers: Vec::new(),
        }
    }

    fn push_log(&mut self, line: String)
        ensures
            strs(final(self).log@) == log_after(strs(old(self).log@), line@),
            final(self).status == old(self).status,
            final(self).received_files == old(self).received_files,
            final(self).sent_files == old(self).sent_files,
            final(self).peers == old(self).peers,
    {
        let ghost l = strs(self.log@).push(line@);
        self.log.push(line);
        assert(strs(self.log@) =~= l);
        if self.log.len() > CORE_LOG_CAPACITY {
            let overflow = self.log.len() - CORE_LOG_CAPACITY;
            let ghost whole = self.log@;
            let tail = self.log.split_off(overflow);
            self.log = tail;
            assert(strs(self.log@) =~= l.subrange(l.len() - CORE_LOG_CAPACITY, l.len() as int));
        }
    }

    #[verifier::loop_isolation(false)]
    fn note_received(&mut self, line: &str)
        ensures
            strs(final(self).received_files@) == received_after(strs(old(self).received_files@), line@),
            final(self).log == old(self).log,
            final(self).status == old(self).status,
            final(self).sent_files == old(self).sent_files,
            final(self).peers == old(self).peers,
    {
        if !line_has(line, "archivo recibido") {
            return;
        }
        let path = match trailing_field(line, "path=") {
            Some(p) => p,
            None => return,
        };
        if path.as_str().is_empty() {
            return;
        }
        let mut i: usize = 0;
        while i < self.received_files.len()
            invariant
                0 <= i <= self.received_files@.len(),
                forall|j: int| 0 <= j < i ==> strs(self.received_files@)[j] != path@,
            decreases self.received_files@.len() - i,
        {
            if self.received_files[i] == path {
                assert(strs(self.received_files@)[i as int] == path@);
                assert(strs(self.received_files@).contains(path@));
                return;
            }
            i = i + 1;
        }
        let ghost before = strs(self.received_files@);
        self.received_files.push(path);
        assert(strs(self.received_files@) =~= before.push(path@));
    }
}

proof fn lemma_find_sent(sent: Seq<(Seq<char>, bool, bool)>, name: Seq<char>, k: int)
    requires
        0 <= k,
    ensures
        find_sent(sent, name, k) matches Some(i) ==> k <= i < sent.len() && sent[i].0 == name,
    decreases sent.len() - k,
{
    if k < sent.len() && sent[k].0 != name {
        lemma_find_sent(sent, name, k + 1);
    }
}

fn find_sent_exec(sent: &Vec<SentFile>, name: &String) -> (r: Option<usize>)
    ensures
        match r {
            Some(i) => find_sent(sent_view(sent@), name@, 0) == Some(i as int) && i < sent@.len(),
            None => find_sent(sent_view(sent@), name@, 0) is None,
        },
{
    let ghost v = sent_view(sent@);
    let mut i: usize = 0;
    while i < sent.len()
        invariant
            0 <= i <= sent@.len(),
            v == sent_view(sent@),
            find_sent(v, name@, 0) == find_sent(v, name@, i as int),
        decreases sent@.len() - i,
    {
        if sent[i].name == *name {
            assert(v[i as int].0 == name@);
            return Some(i);
        }
        assert(v[i as int].0 != name@);
        i = i + 1;
    }
    None
}

fn copy_peer(p: &ConnectedPeer) -> (q: ConnectedPeer)
    ensures
        q.device_id@ == p.device_id@,
        q.name@ == p.name@,
{
    ConnectedPeer { device_id: p.device_id.clone(), name: p.name.clone() }
}

/// `peers` without the ones whose device id is `device`.
fn retain_other_devices(peers: &Vec<ConnectedPeer>, device: &String) -> (r: Vec<ConnectedPeer>)
    ensures
        peer_view(r@) == peers_without(peer_view(peers@), device@),
{
    let mut r: Vec<ConnectedPeer> = Vec::new();
    let mut i: usize = 0;
    while i < peers.len()
        invariant
            0 <= i <= peers@.len(),
            peer_view(r@) == peers_without(peer_view(peers@).take(i as int), device@),
        decreases peers@.len() - i,
    {
        let ghost t = peer_view(peers@).take(i + 1);
        assert(t.drop_last() =~= peer_view(peers@).take(i as int));
        if peers[i].device_id != *device {
            let ghost before = peer_view(r@);
            r.push(copy_peer(&peers[i]));
            assert(peer_view(r@) =~= before.push(t.last()));
        }
        i = i + 1;
    }
    assert(peer_view(peers@).take(peers@.len() as int) =~= peer_view(peers@));
    r
}

fn has_device_exec(peers: &Vec<ConnectedPeer>, device: &String) -> (r: bool)
    ensures
        r == has_device(peer_view(peers@), device@),
{
    let mut i: usize = 0;
    while i < peers.len()
        invariant
            0 <= i <= peers@.len(),
            forall|j: int| 0 <= j < i ==> peer_view(peers@)[j].0 != device@,
        decreases peers@.len() - i,
    {
        if peers[i].device_id == *device {
            assert(peer_view(peers@)[i as int].0 == device@);
            return true;
        }
        i = i + 1;
    }
    false
}

impl CoreMonitor {
    fn note_sent(&mut self, line: &str)
        ensures
            sent_view(final(self).sent_files@) == sent_after(sent_view(old(self).sent_files@), line@),
            final(self).log == old(self).log,
            final(self).status == old(self).status,
            final(self).received_files == old(self).received_files,
            final(self).peers == old(self).peers,
    {
        let ghost v = sent_view(self.sent_files@);
        let name = trailing_field(line, "name=");
        let starting = line_has(line, "enviando archivo");
        let named = match &name {
            Some(n) => !n.as_str().is_empty(),
            None => false,
        };
        if starting && named {
            let n = match name {
                Some(n) => n,
                None => return,
            };
            match find_sent_exec(&self.sent_files, &n) {
                Some(i) => {
                    proof {
                        lemma_find_sent(v, n@, 0);
                    }
                    self.sent_files.set(i, SentFile { name: n, done: false, failed: false });
                    assert(sent_view(self.sent_files@) =~= v.update(i as int, (n@, false, false)));
                },
                None => {
                    self.sent_files.push(SentFile { name: n, done: false, failed: false });
                    assert(sent_view(self.sent_files@) =~= v.push((n@, false, false)));
                },
            }
            return;
        }
        let n = match name {
            Some(n) => n,
            None => return,
        };
        if line_has(line, "archivo enviado") {
            match find_sent_exec(&self.sent_files, &n) {
                Some(i) => {
                    let failed = self.sent_files[i].failed;
                    let kept = self.sent_files[i].name.clone();
                    self.sent_files.set(i, SentFile { name: kept, done: true, failed });
                    assert(sent_view(self.sent_files@) =~= v.update(i as int, (v[i as int].0, true, v[i as int].2)));
                },
                None => {},
            }
        } else if line_has(line, "error leyendo el archivo") || line_has(line, "no se pudo abrir el archivo a enviar") {
            match find_sent_exec(&self.sent_files, &n) {
                Some(i) => {
                    let done = self.sent_files[i].done;
                    let kept = self.sent_files[i].name.clone();
                    self.sent_files.set(i, SentFile { name: kept, done, failed: true });
                    assert(sent_view(self.sent_files@) =~= v.update(i as int, (v[i as int].0, v[i as int].1, true)));
                },
                None => {
                    self.sent_files.push(SentFile { name: n, done: false, failed: true });
                    assert(sent_view(self.sent_files@) =~= v.push((n@, false, true)));
                },
            }
        }
    }

    fn note_peers(&mut self, line: &str)
        ensures
            peer_view(final(self).peers@) == peers_after(peer_view(old(self).peers@), line@),
            final(self).log == old(self).log,
            final(self).status == old(self).status,
            final(self).received_files == old(self).received_files,
            final(self).sent_files == old(self).sent_files,
    {
        let ghost v = peer_view(self.peers@);
        if line_has(line, "peer autenticado") {
            match (extract_field(line, "device_id="), extract_field(line, "name=")) {
                (Some(d), Some(n)) => {
                    if !has_device_exec(&self.peers, &d) {
                        self.peers.push(ConnectedPeer { device_id: d, name: n });
                        assert(peer_view(self.peers@) =~= v.push((d@, n@)));
                    }
                },
                _ => {},
            }
        } else if line_has(line, "peer desconectado") {
            match extract_field(line, "device_id=") {
                Some(d) => {
                    self.peers = retain_other_devices(&self.peers, &d);
                },
                None => {},
            }
        } else if line_has(line, "conectado al servidor") {
            let name = match extract_field(line, "server=") {
                Some(n) => n,
                None => "Servidor".to_owned(),
            };
            let server = "server".to_owned();
            let mut kept = retain_other_devices(&self.peers, &server);
            let ghost before = peer_view(kept@);
            kept.push(ConnectedPeer { device_id: server, name });
            assert(peer_view(kept@) =~= before.push(("server"@, name@)));
            self.peers = kept;
        } else if line_has(line, "reintentando conexión") {
            let server = "server".to_owned();
            self.peers = retain_other_devices(&self.peers, &server);
        }
    }

    /// Takes in one line of the service's output: strips its colour codes,
    /// appends it to the log, and updates the status, received files,
    /// outgoing files and connected machines. Returns the cleaned line and
    /// the status it reports, if any.
    pub fn on_line(&mut self, raw_line: &str) -> (r: (String, Option<&'static str>))
        ensures
            r.0@ == strip_from(raw_line@, 0),
            strs(final(self).log@) == log_after(strs(old(self).log@), r.0@),
            match spec_classify(r.0@) {
                Some(st) => r.1 matches Some(s) && s@ == st && final(self).status@ == st,
                None => r.1 is None && final(self).status == old(self).status,
            },
            strs(final(self).received_files@) == received_after(strs(old(self).received_files@), r.0@),
            sent_view(final(self).sent_files@) == sent_after(sent_view(old(self).sent_files@), r.0@),
            peer_view(final(self).peers@) == peers_after(peer_view(old(self).peers@), r.0@),
    {
        let line = strip_ansi(raw_line);
        self.push_log(line.clone());
        let status = classify_line(line.as_str());
        match status {
            Some(s) => {
                self.status = s.to_owned();
            },
            None => {},
        }
        self.note_received(line.as_str());
        self.note_sent(line.as_str());
        self.note_peers(line.as_str());
        (line, status)
    }

    /// The device list: every connected machine, by name.
    pub fn devices(&self) -> (d: Vec<DeviceSummary>)
        ensures
            d@.len() == self.peers@.len(),
            forall|i: int| 0 <= i < d@.len() ==> (#[trigger] d@[i]).name@ == self.peers@[i].name@ && d@[i].connected
                && d@[i].latency_ms is None,
    {
        let mut d: Vec<DeviceSummary> = Vec::new();
        let mut i: usize = 0;
        while i < self.peers.len()
            invariant
                0 <= i <= self.peers@.len(),
                d@.len() == i,
                forall|j: int| 0 <= j < i ==> (#[trigger] d@[j]).name@ == self.peers@[j].name@ && d@[j].connected
                    && d@[j].latency_ms is None,
            decreases self.peers@.len() - i,
        {
            d.push(DeviceSummary { name: self.peers[i].name.clone(), connected: true, latency_ms: None });
            i = i + 1;
        }
        d
    }
}

/// Why files cannot be sent now, checked in this order: none chosen, the
/// service not running, no machine connected.
pub fn send_files_refusal(count: usize, running: bool, peers: usize) -> (r: Option<&'static str>)
    ensures
        count == 0 ==> (r matches Some(m) && m@ == "No se seleccionó ningún archivo."@),
        count > 0 && !running ==> (r matches Some(m) && m@ == "El servicio no está corriendo. Tocá «Conectar» primero."@),
        count > 0 && running && peers == 0 ==> (r matches Some(m)
            && m@ == "No hay ningún equipo conectado todavía. Esperá a que aparezca en «Equipos conectados»."@),
        count > 0 && running && peers > 0 ==> r is None,
{
    if count == 0 {
        Some("No se seleccionó ningún archivo.")
    } else if !running {
        Some("El servicio no está corriendo. Tocá «Conectar» primero.")
    } else if peers == 0 {
        Some("No hay ningún equipo conectado todavía. Esperá a que aparezca en «Equipos conectados».")
    } else {
        None
    }
}

/// Appends `lit` to `s`.
fn push_str(s: &mut String, lit: &str)
    ensures
        final(s)@ == old(s)@ + lit@,
{
    let c = chars_of(lit);
    let mut i: usize = 0;
    while i < c.len()
        invariant
            0 <= i <= c@.len(),
            c@ == lit@,
            s@ == old(s)@ + c@.take(i as int),
        decreases c@.len() - i,
    {
        s.push(c[i]);
        assert(c@.take(i + 1) =~= c@.take(i as int).push(c@[i as int]));
        i = i + 1;
    }
    assert(c@.take(c@.len() as int) =~= c@);
}

/// The confirmation shown once `count` files are handed to the service.
pub fn sending_summary(count: usize) -> (s: String)
    ensures
        s@ == "Enviando "@ + dec_string(count as nat) + " archivo"@ + (if count == 1 { ""@ } else { "s"@ })
            + " al otro equipo…"@,
{
    let mut s = "Enviando ".to_owned();
    push_decimal(&mut s, count as u64);
    push_str(&mut s, " archivo");
    if count == 1 {
        push_str(&mut s, "");
    } else {
        push_str(&mut s, "s");
    }
    push_str(&mut s, " al otro equipo…");
    s
}

} // verus!
