//! The listening side of the daemon: where its socket lives and how
//! accepted clients are numbered.
use vstd::prelude::*;

verus! {

/// The name of the socket file that the daemon binds in development mode,
/// inside `$XDG_RUNTIME_DIR`.
pub open spec fn dev_socket_name() -> Seq<char> {
    "/weather-mon-dev.sock"@
}

/// The socket path used in development mode: `<runtime_dir>/weather-mon-dev.sock`.
pub fn dev_socket_path(runtime_dir: &str) -> (path: String)
    ensures
        path@ == runtime_dir@ + dev_socket_name(),
{
    let mut path = runtime_dir.to_owned();
    path.append("/weather-mon-dev.sock");
    path
}

/// A listener and the number of the last client it accepted.
///
/// `L` is the listening socket; the daemon uses tokio's `UnixListener`.
pub struct Server<L> {
    listener: L,
    clientid: u64,
}

impl<L> Server<L> {
    /// The number given to the last accepted client (0 before the first).
    pub closed spec fn last_id(self) -> u64 {
        self.clientid
    }

    pub closed spec fn spec_listener(self) -> L {
        self.listener
    }

    /// A server that has accepted no client yet.
    pub fn from_listener(listener: L) -> (s: Self)
        ensures
            s.last_id() == 0,
            s.spec_listener() == listener,
    {
        Server { listener, clientid: 0 }
    }

    pub fn listener(&self) -> (l: &L)
        ensures
            *l == self.spec_listener(),
    {
        &self.listener
    }

    /// The number of the client just accepted: one more than the last,
    /// wrapping around after `u64::MAX`.
    pub fn next_client_id(&mut self) -> (id: u64)
        ensures
            id == (old(self).last_id() + 1) % 0x1_0000_0000_0000_0000,
            final(self).last_id() == id,
            final(self).spec_listener() == old(self).spec_listener(),
    {
        self.clientid = self.clientid.wrapping_add(1);
        self.clientid
    }
}

/// The id given to the `k`-th accepted client (from 1) by a fresh server.
pub open spec fn nth_client_id(k: nat) -> u64 {
    (k % 0x1_0000_0000_0000_0000) as u64
}

/// Numbering from a fresh server: if the last id is that of the `k`-th
/// client, the next client gets the id of the `(k + 1)`-th.
pub proof fn theorem_client_id_step<L>(s: Server<L>, k: nat)
    requires
        s.last_id() == nth_client_id(k),
    ensures
        (s.last_id() + 1) % 0x1_0000_0000_0000_0000 == nth_client_id(k + 1),
{
    vstd::arithmetic::div_mod::lemma_add_mod_noop(k as int, 1, 0x1_0000_0000_0000_0000);
}

/// Clients accepted fewer than 2^64 apart get different ids.
pub proof fn theorem_client_ids_distinct(k1: nat, k2: nat)
    requires
        k1 < k2 < k1 + 0x1_0000_0000_0000_0000,
    ensures
        nth_client_id(k1) != nth_client_id(k2),
{
    vstd::arithmetic::div_mod::lemma_fundamental_div_mod(k1 as int, 0x1_0000_0000_0000_0000);
    vstd::arithmetic::div_mod::lemma_fundamental_div_mod(k2 as int, 0x1_0000_0000_0000_0000);
    if nth_client_id(k1) == nth_client_id(k2) {
        let q1 = k1 as int / 0x1_0000_0000_0000_0000;
        let q2 = k2 as int / 0x1_0000_0000_0000_0000;
        assert(k2 - k1 == 0x1_0000_0000_0000_0000 * (q2 - q1));
        assert(0 < q2 - q1 < 1) by (nonlinear_arith)
            requires
                k2 - k1 == 0x1_0000_0000_0000_0000 * (q2 - q1),
                0 < k2 - k1 < 0x1_0000_0000_0000_0000,
        ;
    }
}

/// The last id of a server whose last id was `start`, after `k` more
/// accepted clients.
pub open spec fn after_accepts(start: u64, k: nat) -> u64
    decreases k,
{
    if k == 0 {
        start
    } else {
        ((after_accepts(start, (k - 1) as nat) + 1) % 0x1_0000_0000_0000_0000) as u64
    }
}

/// A fresh server (last id 0) gives its `k`-th accepted client the id
/// `nth_client_id(k)`; below 2^64 that is `k` itself, so the ids are
/// 1, 2, 3, ... in order and 0 is never given.
pub proof fn theorem_accept_run(k: nat)
    ensures
        after_accepts(0, k) == nth_client_id(k),
        1 <= k < 0x1_0000_0000_0000_0000 ==> after_accepts(0, k) == k && after_accepts(0, k) != 0,
    decreases k,
{
    if k > 0 {
        theorem_accept_run((k - 1) as nat);
        vstd::arithmetic::div_mod::lemma_add_mod_noop(
            (k - 1) as int,
            1,
            0x1_0000_0000_0000_0000,
        );
        vstd::arithmetic::div_mod::lemma_small_mod(1, 0x1_0000_0000_0000_0000);
        vstd::arithmetic::div_mod::lemma_mod_twice((k - 1) as int, 0x1_0000_0000_0000_0000);
    }
    if 1 <= k < 0x1_0000_0000_0000_0000 {
        vstd::arithmetic::div_mod::lemma_small_mod(k, 0x1_0000_0000_0000_0000);
    }
}

} // verus!
