//! Proxy configuration and the dialer that lays a tunnel across a chain of
//! SOCKS5 proxies.
//!
//! The dialer decides; it does not touch the network. A [`Dial`] says which
//! step comes next ([`Dial::action`]), the caller performs it and reports how
//! it went ([`Dial::step`]).

use rand::seq::SliceRandom;
use vstd::prelude::*;
use vstd::std_specs::cmp::PartialEqSpecImpl;

use crate::address::Endpoint;

verus! {

/// A SOCKS5 proxy: where it listens, and the credentials it wants, if any.
#[derive(Debug)]
pub struct Proxy {
    pub socket_addr: Endpoint,
    pub auth: Option<(String, String)>,
}

impl Clone for Proxy {
    fn clone(&self) -> (copy: Self)
        ensures
            copy == *self,
    {
        let auth = match &self.auth {
            Some((user, password)) => Some((user.clone(), password.clone())),
            None => None,
        };
        Proxy { socket_addr: self.socket_addr, auth }
    }
}

/// Two proxies are the same proxy when they listen at the same endpoint:
/// credentials are not identity.
impl PartialEq for Proxy {
    fn eq(&self, other: &Self) -> (same: bool) {
        self.socket_addr == other.socket_addr
    }
}

impl PartialEqSpecImpl for Proxy {
    open spec fn obeys_eq_spec() -> bool {
        true
    }

    open spec fn eq_spec(&self, other: &Self) -> bool {
        self.socket_addr == other.socket_addr
    }
}

/// How the chain is chosen from the configured proxies.
#[derive(Clone, Copy, Debug, PartialEq, Eq, Structural)]
pub enum ProxyChainsMode {
    /// Probe every proxy and chain those that answer, in configured order.
    Dynamic,
    /// Chain every proxy, in configured order.
    Strict,
    /// Chain `chain_len` proxies drawn at random without repetition.
    Random,
}

/// Why a configuration is not accepted.
#[derive(Clone, Copy, Debug, PartialEq, Eq, Structural)]
pub enum ConfigError {
    /// The list of proxies is empty.
    NoProxies,
    /// Random mode with a chain length of zero or above the number of proxies.
    BadChainLen,
}

/// The proxies, the mode, and the chain length (read in Random mode only).
#[derive(Debug)]
pub struct ProxyChainsConf {
    pub mode: ProxyChainsMode,
    pub proxies: Vec<Proxy>,
    pub chain_len: usize,
}

/// Whether a chain of `chain_len` proxies can be drawn from `available` ones.
pub open spec fn chain_len_fits(chain_len: int, available: int) -> bool {
    1 <= chain_len <= available
}

/// Whether some proxy of the list listens at `addr`.
pub open spec fn lists_endpoint(proxies: Seq<Proxy>, addr: Endpoint) -> bool {
    exists|i: int| 0 <= i < proxies.len() && (#[trigger] proxies[i]).socket_addr == addr
}

impl ProxyChainsConf {
    /// A configuration that can be dialed: at least one proxy, and in Random
    /// mode a chain length between one and the number of proxies.
    pub open spec fn valid(&self) -> bool {
        &&& self.proxies@.len() >= 1
        &&& self.mode == ProxyChainsMode::Random ==> chain_len_fits(
            self.chain_len as int,
            self.proxies@.len() as int,
        )
    }

    /// What is wrong with the configuration, if anything. An empty list is
    /// reported before a bad chain length.
    pub open spec fn defect(&self) -> Option<ConfigError> {
        if self.proxies@.len() == 0 {
            Some(ConfigError::NoProxies)
        } else if self.mode == ProxyChainsMode::Random && !chain_len_fits(
            self.chain_len as int,
            self.proxies@.len() as int,
        ) {
            Some(ConfigError::BadChainLen)
        } else {
            None
        }
    }

    /// Checks the configuration.
    pub fn validate(&self) -> (checked: Result<(), ConfigError>)
        ensures
            checked is Ok <==> self.valid(),
            checked == match self.defect() {
                Some(error) => Err::<(), ConfigError>(error),
                None => Ok(()),
            },
    {
        if self.proxies.len() < 1 {
            return Err(ConfigError::NoProxies);
        }
        match self.mode {
            ProxyChainsMode::Random => {
                if self.chain_len < 1 || self.chain_len > self.proxies.len() {
                    return Err(ConfigError::BadChainLen);
                }
            },
            _ => {},
        }
        Ok(())
    }

    /// Builds a configuration from its parts, or says why they do not make one.
    pub fn new(mode: ProxyChainsMode, proxies: Vec<Proxy>, chain_len: usize) -> (built: Result<
        ProxyChainsConf,
        ConfigError,
    >)
        ensures
            built is Ok <==> (ProxyChainsConf { mode, proxies, chain_len }).valid(),
            match built {
                Ok(conf) => conf.mode == mode && conf.proxies == proxies && conf.chain_len
                    == chain_len,
                Err(error) => Some(error) == (ProxyChainsConf { mode, proxies, chain_len }).defect(),
            },
    {
        let conf = ProxyChainsConf { mode, proxies, chain_len };
        match conf.validate() {
            Ok(()) => Ok(conf),
            Err(error) => Err(error),
        }
    }

    /// Whether `addr` is the endpoint of a configured proxy. A connection to
    /// such an endpoint is the dialer's own and must not be redirected again.
    pub fn is_proxy(&self, addr: &Endpoint) -> (listed: bool)
        ensures
            listed == lists_endpoint(self.proxies@, *addr),
    {
        let wanted = Proxy { socket_addr: *addr, auth: None };
        let mut i: usize = 0;
        while i < self.proxies.len()
            invariant
                i <= self.proxies@.len(),
                wanted.socket_addr == *addr,
                forall|j: int| 0 <= j < i ==> (#[trigger] self.proxies@[j]).socket_addr != *addr,
            decreases self.proxies@.len() - i,
        {
            if self.proxies[i] == wanted {
                return true;
            }
            i += 1;
        }
        false
    }
}

/// What went wrong while a step of the dial was performed.
#[derive(Clone, Copy, Debug, PartialEq, Eq, Structural)]
pub enum Failure {
    /// The socket could not be opened, or broke.
    Socket,
    /// The proxy did not speak SOCKS5 as expected, or refused the request.
    Protocol,
    /// The proxy rejected the credentials.
    Auth,
}

/// Why no tunnel was established.
#[derive(Clone, Copy, Debug, PartialEq, Eq, Structural)]
pub enum DialError {
    /// The configuration lists no proxy.
    NoProxies,
    /// Random mode with a chain length of zero or above the number of proxies.
    BadChainLen,
    /// Dynamic mode, and no proxy answered the probe.
    NoLiveProxies,
    /// The hop with this index in the chain failed. Opening the connection to
    /// the first proxy counts as part of hop 0.
    Hop { index: usize, failure: Failure },
}

/// How the step that the dial asked for went.
#[derive(Clone, Copy, Debug, PartialEq, Eq, Structural)]
pub enum DialEvent {
    Succeeded,
    Failed(Failure),
}

/// The step that the caller of a dial performs next.
#[derive(Debug, PartialEq, Eq)]
pub enum DialAction {
    /// Open a connection to `endpoint`, do the SOCKS5 greeting and
    /// authentication with `auth`, and close it again.
    Probe { index: usize, endpoint: Endpoint, auth: Option<(String, String)> },
    /// Open the tunnel's connection, to the first proxy of the chain.
    OpenTcp { endpoint: Endpoint },
    /// Over the tunnel as it stands, do the SOCKS5 greeting and authentication
    /// with `auth`, then ask for a connection to `next_addr`.
    Handshake { hop: usize, auth: Option<(String, String)>, next_addr: Endpoint },
    /// The tunnel reaches the target: hand it out.
    Finish,
    /// Give up, and close the connection if one was opened.
    Abort { error: DialError },
}

/// Where a dial stands.
#[derive(Clone, Copy, Debug, PartialEq, Eq, Structural)]
pub enum Phase {
    /// Dynamic mode: the candidate with index `next` is probed next.
    Probing { next: usize },
    /// The chain is fixed; the connection to its first proxy is not open yet.
    Opening,
    /// The connection is open and reaches the proxy with index `hop`, which
    /// has not been asked to connect onwards yet.
    Tunnelling { hop: usize },
    /// The tunnel reaches the target.
    Established,
    /// The dial was given up.
    Failed { error: DialError },
}

/// The address that the proxy at position `hop` of `chain` is asked to connect
/// to: the next proxy where there is one, else the target.
pub open spec fn next_addr(target_addr: Endpoint, chain: Seq<Proxy>, hop: int) -> Endpoint {
    if hop + 1 < chain.len() {
        chain[hop + 1].socket_addr
    } else {
        target_addr
    }
}

/// The state of a dial, as a value.
pub struct DialView {
    pub target_addr: Endpoint,
    /// Dynamic mode: the proxies to probe. Empty in the other modes.
    pub candidates: Seq<Proxy>,
    /// The proxies to tunnel through, first hop first. While probing, the
    /// candidates that have answered so far.
    pub chain: Seq<Proxy>,
    pub phase: Phase,
}

impl DialView {
    /// The phase points into the lists it speaks of.
    pub open spec fn wf(self) -> bool {
        match self.phase {
            Phase::Probing { next } => next < self.candidates.len(),
            Phase::Opening => self.chain.len() >= 1,
            Phase::Tunnelling { hop } => hop < self.chain.len(),
            Phase::Established => true,
            Phase::Failed { error } => true,
        }
    }

    /// The dial over `chain`, before anything is opened.
    pub open spec fn over(target_addr: Endpoint, chain: Seq<Proxy>) -> DialView {
        DialView { target_addr, candidates: Seq::empty(), chain, phase: Phase::Opening }
    }

    /// The dial that probes `candidates` first.
    pub open spec fn probing(target_addr: Endpoint, candidates: Seq<Proxy>) -> DialView {
        DialView {
            target_addr,
            candidates,
            chain: Seq::empty(),
            phase: Phase::Probing { next: 0 },
        }
    }

    /// The step to perform in this state.
    pub open spec fn action(self) -> DialAction {
        match self.phase {
            Phase::Probing { next } => DialAction::Probe {
                index: next,
                endpoint: self.candidates[next as int].socket_addr,
                auth: self.candidates[next as int].auth,
            },
            Phase::Opening => DialAction::OpenTcp { endpoint: self.chain[0].socket_addr },
            Phase::Tunnelling { hop } => DialAction::Handshake {
                hop,
                auth: self.chain[hop as int].auth,
                next_addr: next_addr(self.target_addr, self.chain, hop as int),
            },
            Phase::Established => DialAction::Finish,
            Phase::Failed { error } => DialAction::Abort { error },
        }
    }

    /// The state after the step of this state went as `event` says. A dial
    /// that is established or given up stays as it is.
    pub open spec fn step(self, event: DialEvent) -> DialView {
        match self.phase {
            Phase::Probing { next } => {
                let chain = if event == DialEvent::Succeeded {
                    self.chain.push(self.candidates[next as int])
                } else {
                    self.chain
                };
                let phase = if next + 1 < self.candidates.len() {
                    Phase::Probing { next: (next + 1) as usize }
                } else if chain.len() == 0 {
                    Phase::Failed { error: DialError::NoLiveProxies }
                } else {
                    Phase::Opening
                };
                DialView { chain, phase, ..self }
            },
            Phase::Opening => match event {
                DialEvent::Succeeded => DialView { phase: Phase::Tunnelling { hop: 0 }, ..self },
                DialEvent::Failed(failure) => DialView {
                    phase: Phase::Failed { error: DialError::Hop { index: 0, failure } },
                    ..self
                },
            },
            Phase::Tunnelling { hop } => match event {
                DialEvent::Succeeded => if hop + 1 < self.chain.len() {
                    DialView { phase: Phase::Tunnelling { hop: (hop + 1) as usize }, ..self }
                } else {
                    DialView { phase: Phase::Established, ..self }
                },
                DialEvent::Failed(failure) => DialView {
                    phase: Phase::Failed { error: DialError::Hop { index: hop, failure } },
                    ..self
                },
            },
            Phase::Established => self,
            Phase::Failed { error } => self,
        }
    }

    /// The state after `count` steps in a row went well.
    pub open spec fn succeed(self, count: nat) -> DialView
        decreases count,
    {
        if count == 0 {
            self
        } else {
            self.succeed((count - 1) as nat).step(DialEvent::Succeeded)
        }
    }

    /// The state after one probe for each entry of `answers`, in order; `true`
    /// is a proxy that answered.
    pub open spec fn probe(self, answers: Seq<bool>) -> DialView
        decreases answers.len(),
    {
        if answers.len() == 0 {
            self
        } else {
            let event = if answers.last() {
                DialEvent::Succeeded
            } else {
                DialEvent::Failed(Failure::Socket)
            };
            self.probe(answers.drop_last()).step(event)
        }
    }
}

/// The candidates whose probe was answered, in their order. A candidate
/// without an answer counts as silent.
pub open spec fn survivors(candidates: Seq<Proxy>, answers: Seq<bool>) -> Seq<Proxy>
    decreases candidates.len(),
{
    if candidates.len() == 0 {
        Seq::empty()
    } else {
        let before = survivors(candidates.drop_last(), answers);
        let last = candidates.len() - 1;
        if last < answers.len() && answers[last] {
            before.push(candidates.last())
        } else {
            before
        }
    }
}

/// A dial in progress: the chain, and how far the tunnel reaches.
pub struct Dial {
    target_addr: Endpoint,
    candidates: Vec<Proxy>,
    chain: Vec<Proxy>,
    phase: Phase,
}

impl View for Dial {
    type V = DialView;

    closed spec fn view(&self) -> DialView {
        DialView {
            target_addr: self.target_addr,
            candidates: self.candidates@,
            chain: self.chain@,
            phase: self.phase,
        }
    }
}

/// A copy of the credentials.
fn clone_auth(auth: &Option<(String, String)>) -> (copy: Option<(String, String)>)
    ensures
        copy == *auth,
{
    match auth {
        Some((user, password)) => Some((user.clone(), password.clone())),
        None => None,
    }
}

/// A copy of the list.
fn clone_proxies(proxies: &Vec<Proxy>) -> (copy: Vec<Proxy>)
    ensures
        copy@ == proxies@,
{
    let mut copy: Vec<Proxy> = Vec::new();
    let mut i: usize = 0;
    while i < proxies.len()
        invariant
            i <= proxies@.len(),
            copy@ == proxies@.take(i as int),
        decreases proxies@.len() - i,
    {
        copy.push(proxies[i].clone());
        assert(proxies@.take(i + 1) == proxies@.take(i as int).push(proxies@[i as int]));
        i += 1;
    }
    assert(proxies@.take(i as int) == proxies@);
    copy
}

impl Dial {
    #[verifier::type_invariant]
    spec fn inv(self) -> bool {
        self@.wf()
    }

    /// Where the dial stands.
    pub fn phase(&self) -> (phase: Phase)
        ensures
            phase == self@.phase,
    {
        self.phase
    }

    /// The address that the tunnel is to reach.
    pub fn target_addr(&self) -> (addr: Endpoint)
        ensures
            addr == self@.target_addr,
    {
        self.target_addr
    }

    /// The proxies of the chain as far as it is known, first hop first.
    pub fn chain(&self) -> (chain: &Vec<Proxy>)
        ensures
            chain@ == self@.chain,
    {
        &self.chain
    }

    /// The step to perform next.
    pub fn action(&self) -> (action: DialAction)
        ensures
            action == self@.action(),
    {
        proof {
            use_type_invariant(self);
        }
        match self.phase {
            Phase::Probing { next } => DialAction::Probe {
                index: next,
                endpoint: self.candidates[next].socket_addr,
                auth: clone_auth(&self.candidates[next].auth),
            },
            Phase::Opening => DialAction::OpenTcp { endpoint: self.chain[0].socket_addr },
            Phase::Tunnelling { hop } => DialAction::Handshake {
                hop,
                auth: clone_auth(&self.chain[hop].auth),
                next_addr: *strict_next_addr(&self.target_addr, &self.chain, hop),
            },
            Phase::Established => DialAction::Finish,
            Phase::Failed { error } => DialAction::Abort { error },
        }
    }

    /// The dial after the step went as `event` says.
    pub fn step(self, event: DialEvent) -> (next: Dial)
        ensures
            next@ == self@.step(event),
    {
        proof {
            use_type_invariant(&self);
        }
        let Dial { target_addr, candidates, mut chain, phase } = self;
        let candidate_count = candidates.len();
        let phase = match phase {
            Phase::Probing { next } => {
                match event {
                    DialEvent::Succeeded => {
                        chain.push(candidates[next].clone());
                    },
                    DialEvent::Failed(_) => {},
                }
                if next + 1 < candidate_count {
                    Phase::Probing { next: next + 1 }
                } else if chain.len() == 0 {
                    Phase::Failed { error: DialError::NoLiveProxies }
                } else {
                    Phase::Opening
                }
            },
            Phase::Opening => match event {
                DialEvent::Succeeded => Phase::Tunnelling { hop: 0 },
                DialEvent::Failed(failure) => Phase::Failed {
                    error: DialError::Hop { index: 0, failure },
                },
            },
            Phase::Tunnelling { hop } => match event {
                DialEvent::Succeeded => if hop < chain.len() - 1 {
                    Phase::Tunnelling { hop: hop + 1 }
                } else {
                    Phase::Established
                },
                DialEvent::Failed(failure) => Phase::Failed {
                    error: DialError::Hop { index: hop, failure },
                },
            },
            Phase::Established => Phase::Established,
            Phase::Failed { error } => Phase::Failed { error },
        };
        Dial { target_addr, candidates, chain, phase }
    }
}

/// The address that the proxy at position `current` is asked to connect to:
/// the next proxy of the chain where one is left, else the target.
pub fn strict_next_addr<'a>(
    target_addr: &'a Endpoint,
    proxies: &'a Vec<Proxy>,
    current: usize,
) -> (next: &'a Endpoint)
    requires
        current < proxies@.len(),
    ensures
        *next == next_addr(*target_addr, proxies@, current as int),
{
    if proxies.len() - 1 - current > 0 {
        &proxies[current + 1].socket_addr
    } else {
        target_addr
    }
}

/// Starts a dial through every configured proxy, in configured order.
pub fn strict(target_addr: Endpoint, conf: &ProxyChainsConf) -> (dial: Result<Dial, DialError>)
    ensures
        match dial {
            Ok(dial) => conf.proxies@.len() >= 1 && dial@ == DialView::over(
                target_addr,
                conf.proxies@,
            ),
            Err(error) => conf.proxies@.len() == 0 && error == DialError::NoProxies,
        },
{
    if conf.proxies.len() < 1 {
        return Err(DialError::NoProxies);
    }
    Ok(
        Dial {
            target_addr,
            candidates: Vec::new(),
            chain: clone_proxies(&conf.proxies),
            phase: Phase::Opening,
        },
    )
}

/// Starts a dial that probes every configured proxy and then tunnels through
/// those that answered.
pub fn dynamic(target_addr: Endpoint, conf: &ProxyChainsConf) -> (dial: Result<Dial, DialError>)
    ensures
        match dial {
            Ok(dial) => conf.proxies@.len() >= 1 && dial@ == DialView::probing(
                target_addr,
                conf.proxies@,
            ),
            Err(error) => conf.proxies@.len() == 0 && error == DialError::NoProxies,
        },
{
    if conf.proxies.len() < 1 {
        return Err(DialError::NoProxies);
    }
    Ok(
        Dial {
            target_addr,
            candidates: clone_proxies(&conf.proxies),
            chain: Vec::new(),
            phase: Phase::Probing { next: 0 },
        },
    )
}

/// `drawn` was taken from `pool` at the positions `at`, no position twice.
pub open spec fn drawn_at(pool: Seq<usize>, drawn: Seq<usize>, at: Seq<int>) -> bool {
    &&& at.len() == drawn.len()
    &&& at.no_duplicates()
    &&& forall|k: int|
        0 <= k < at.len() ==> 0 <= #[trigger] at[k] < pool.len() && drawn[k] == pool[at[k]]
}

/// `picks` are `amount` different positions in a list of `available` entries.
pub open spec fn is_sample(picks: Seq<usize>, available: int, amount: int) -> bool {
    &&& picks.len() == amount
    &&& picks.no_duplicates()
    &&& forall|k: int| 0 <= k < picks.len() ==> #[trigger] picks[k] < available
}

/// The proxies at the positions `picks`, in the order of `picks`.
pub open spec fn picked(proxies: Seq<Proxy>, picks: Seq<usize>) -> Seq<Proxy> {
    Seq::new(picks.len(), |k: int| proxies[picks[k] as int])
}

/// The smaller of two counts.
pub open spec fn at_most(amount: int, available: int) -> int {
    if amount <= available {
        amount
    } else {
        available
    }
}

/// The positions of a list of `count` entries, in order.
fn positions(count: usize) -> (pool: Vec<usize>)
    ensures
        pool@.len() == count,
        forall|i: int| 0 <= i < count ==> pool@[i] == i,
{
    let mut pool: Vec<usize> = Vec::new();
    let mut i: usize = 0;
    while i < count
        invariant
            i <= count,
            pool@.len() == i,
            forall|j: int| 0 <= j < i ==> pool@[j] == j,
        decreases count - i,
    {
        pool.push(i);
        i += 1;
    }
    pool
}

/// The longest list from which the random generator draws all entries.
pub const DRAW_ALL_LIMIT: usize = 0xffff_ffff;

/// `rand::seq::SliceRandom::choose_multiple` on the slice `pool`, with the
/// generator of the calling thread (`rand::thread_rng`), collected in the order
/// in which the elements come out. The crate draws `amount` positions of the
/// slice, or all of them where the slice is shorter, no position twice, and
/// hands out the element at each. Which positions, and in what order, is up to
/// the generator: nothing is claimed of that.
///
/// Above `DRAW_ALL_LIMIT` entries the crate samples by rejection, which it
/// asserts to be asked for fewer positions than there are; such a call is
/// left out. The generator is seeded by the operating system when a thread
/// first uses it, and the crate panics where that fails: this is not part of
/// what is claimed here.
#[verifier::external_body]
fn draw(pool: &Vec<usize>, amount: usize) -> (drawn: Vec<usize>)
    requires
        pool@.len() <= DRAW_ALL_LIMIT || amount < pool@.len(),
    ensures
        drawn@.len() == at_most(amount as int, pool@.len() as int),
        exists|at: Seq<int>| drawn_at(pool@, drawn@, at),
{
    pool.choose_multiple(&mut rand::thread_rng(), amount).cloned().collect()
}

/// Draws `amount` different positions at random from a list of `available`
/// entries; all of them, in some order, where `amount` is larger. A list of
/// more than `DRAW_ALL_LIMIT` entries that is to be taken whole is taken in
/// its own order.
pub fn sample(available: usize, amount: usize) -> (picks: Vec<usize>)
    ensures
        is_sample(picks@, available as int, at_most(amount as int, available as int)),
{
    let pool = positions(available);
    if available > DRAW_ALL_LIMIT && amount >= available {
        return pool;
    }
    let picks = draw(&pool, amount);
    proof {
        let at = choose|at: Seq<int>| drawn_at(pool@, picks@, at);
        assert forall|i: int, j: int| 0 <= i < picks@.len() && 0 <= j < picks@.len() && i != j
            implies picks@[i] != picks@[j] by {
            assert(picks@[i] == at[i] && picks@[j] == at[j]);
        }
        assert forall|k: int| 0 <= k < picks@.len() implies #[trigger] picks@[k] < available by {
            assert(picks@[k] == at[k]);
        }
    }
    picks
}

/// The proxies at the positions `picks`, in the order of `picks`.
pub fn select(proxies: &Vec<Proxy>, picks: &Vec<usize>) -> (chain: Vec<Proxy>)
    requires
        forall|k: int| 0 <= k < picks@.len() ==> #[trigger] picks@[k] < proxies@.len(),
    ensures
        chain@ == picked(proxies@, picks@),
{
    let mut chain: Vec<Proxy> = Vec::new();
    let mut k: usize = 0;
    while k < picks.len()
        invariant
            k <= picks@.len(),
            chain@.len() == k,
            forall|j: int| 0 <= j < k ==> chain@[j] == proxies@[picks@[j] as int],
            forall|j: int| 0 <= j < picks@.len() ==> #[trigger] picks@[j] < proxies@.len(),
        decreases picks@.len() - k,
    {
        chain.push(proxies[picks[k]].clone());
        k += 1;
    }
    assert(chain@ =~= picked(proxies@, picks@));
    chain
}

/// Starts a dial through `chain_len` of the configured proxies, drawn at
/// random without repetition.
pub fn random(target_addr: Endpoint, conf: &ProxyChainsConf) -> (dial: Result<Dial, DialError>)
    ensures
        dial is Ok <==> chain_len_fits(conf.chain_len as int, conf.proxies@.len() as int),
        match dial {
            Ok(dial) => exists|picks: Seq<usize>|
                is_sample(picks, conf.proxies@.len() as int, conf.chain_len as int) && dial@
                    == DialView::over(target_addr, #[trigger] picked(conf.proxies@, picks)),
            Err(error) => error == DialError::BadChainLen,
        },
{
    if conf.chain_len > conf.proxies.len() {
        return Err(DialError::BadChainLen);
    }
    if conf.chain_len < 1 {
        return Err(DialError::BadChainLen);
    }
    let picks = sample(conf.proxies.len(), conf.chain_len);
    let chain = select(&conf.proxies, &picks);
    Ok(Dial { target_addr, candidates: Vec::new(), chain, phase: Phase::Opening })
}

/// The error with which a dial on `conf` is refused, if it is.
pub open spec fn refusal(conf: &ProxyChainsConf) -> Option<DialError> {
    match conf.defect() {
        Some(ConfigError::NoProxies) => Some(DialError::NoProxies),
        Some(ConfigError::BadChainLen) => Some(DialError::BadChainLen),
        None => None,
    }
}

/// The dialer.
pub struct ProxyChains {}

impl ProxyChains {
    /// Starts a dial to `target_addr` in the mode of the configuration. The
    /// dial starts exactly when the configuration is valid.
    pub fn connect(target_addr: Endpoint, conf: &ProxyChainsConf) -> (dial: Result<
        Dial,
        DialError,
    >)
        ensures
            dial is Ok <==> conf.valid(),
            match dial {
                Ok(dial) => match conf.mode {
                    ProxyChainsMode::Strict => dial@ == DialView::over(target_addr, conf.proxies@),
                    ProxyChainsMode::Dynamic => dial@ == DialView::probing(
                        target_addr,
                        conf.proxies@,
                    ),
                    ProxyChainsMode::Random => exists|picks: Seq<usize>|
                        is_sample(picks, conf.proxies@.len() as int, conf.chain_len as int)
                            && dial@ == DialView::over(
                            target_addr,
                            #[trigger] picked(conf.proxies@, picks),
                        ),
                },
                Err(error) => Some(error) == refusal(conf),
            },
    {
        if conf.proxies.len() < 1 {
            return Err(DialError::NoProxies);
        }
        match conf.mode {
            ProxyChainsMode::Strict => strict(target_addr, conf),
            ProxyChainsMode::Random => random(target_addr, conf),
            ProxyChainsMode::Dynamic => dynamic(target_addr, conf),
        }
    }
}

/// A step keeps a well-formed dial well formed.
pub proof fn lemma_step_wf(dial: DialView, event: DialEvent)
    requires
        dial.wf(),
        dial.candidates.len() <= usize::MAX,
        dial.chain.len() <= usize::MAX,
    ensures
        dial.step(event).wf(),
        dial.step(event).target_addr == dial.target_addr,
        dial.step(event).candidates == dial.candidates,
{
}

/// Once its chain is fixed, a dial through `n` proxies opens one connection, to
/// the first proxy, and then performs exactly `n` handshakes: the one with
/// index `hop` presents the credentials of the proxy at `hop` and asks for the
/// proxy at `hop + 1`, the last one for the target. After the last the dial is
/// established. This holds in every mode; the modes differ in the chain.
pub proof fn lemma_chain_handshakes(dial: DialView, hop: nat)
    requires
        dial.phase == Phase::Opening,
        1 <= dial.chain.len() <= usize::MAX,
        hop <= dial.chain.len(),
    ensures
        dial.action() == (DialAction::OpenTcp { endpoint: dial.chain[0].socket_addr }),
        dial.succeed(1 + hop) == (DialView {
            phase: if hop < dial.chain.len() {
                Phase::Tunnelling { hop: hop as usize }
            } else {
                Phase::Established
            },
            ..dial
        }),
        hop < dial.chain.len() ==> dial.succeed(1 + hop).action() == (DialAction::Handshake {
            hop: hop as usize,
            auth: dial.chain[hop as int].auth,
            next_addr: next_addr(dial.target_addr, dial.chain, hop as int),
        }),
        hop == dial.chain.len() ==> dial.succeed(1 + hop).action() == DialAction::Finish,
    decreases hop,
{
    if hop == 0 {
        assert(dial.succeed(1) == dial.succeed(0).step(DialEvent::Succeeded));
    } else {
        lemma_chain_handshakes(dial, (hop - 1) as nat);
        assert(dial.succeed(1 + hop) == dial.succeed(hop).step(DialEvent::Succeeded));
    }
}

/// In Strict mode with `n` proxies the dial performs exactly `n` handshakes,
/// in configured order: the one with index `hop` is made with the credentials
/// of proxy `hop` and asks for proxy `hop + 1`, the last one for the target.
pub proof fn lemma_strict_handshakes(target_addr: Endpoint, proxies: Seq<Proxy>, hop: nat)
    requires
        1 <= proxies.len() <= usize::MAX,
        hop <= proxies.len(),
    ensures
        DialView::over(target_addr, proxies).action() == (DialAction::OpenTcp {
            endpoint: proxies[0].socket_addr,
        }),
        hop < proxies.len() ==> DialView::over(target_addr, proxies).succeed(1 + hop).action()
            == (DialAction::Handshake {
            hop: hop as usize,
            auth: proxies[hop as int].auth,
            next_addr: if hop + 1 < proxies.len() {
                proxies[hop as int + 1].socket_addr
            } else {
                target_addr
            },
        }),
        hop == proxies.len() ==> DialView::over(target_addr, proxies).succeed(1 + hop).action()
            == DialAction::Finish,
{
    lemma_chain_handshakes(DialView::over(target_addr, proxies), hop);
}

/// A hop that fails ends the dial with the index of that hop, and the dial
/// stays given up whatever is reported after.
pub proof fn lemma_failed_hop(dial: DialView, failure: Failure, later: DialEvent)
    requires
        dial.wf(),
        dial.phase is Tunnelling || dial.phase is Opening,
    ensures
        dial.step(DialEvent::Failed(failure)).action() == (DialAction::Abort {
            error: DialError::Hop {
                index: match dial.phase {
                    Phase::Tunnelling { hop } => hop,
                    _ => 0,
                },
                failure,
            },
        }),
        dial.step(DialEvent::Failed(failure)).step(later) == dial.step(DialEvent::Failed(failure)),
{
}

/// While the first `done` candidates are probed, the chain holds those of
/// them that answered.
proof fn lemma_probing_prefix(
    target_addr: Endpoint,
    candidates: Seq<Proxy>,
    answers: Seq<bool>,
    done: nat,
)
    requires
        candidates.len() <= usize::MAX,
        answers.len() == candidates.len(),
        done < candidates.len(),
    ensures
        DialView::probing(target_addr, candidates).probe(answers.take(done as int)) == (DialView {
            target_addr,
            candidates,
            chain: survivors(candidates.take(done as int), answers),
            phase: Phase::Probing { next: done as usize },
        }),
    decreases done,
{
    let start = DialView::probing(target_addr, candidates);
    if done == 0 {
        assert(answers.take(0).len() == 0);
        assert(candidates.take(0).len() == 0);
    } else {
        let fewer = (done - 1) as nat;
        lemma_probing_prefix(target_addr, candidates, answers, fewer);
        assert(answers.take(done as int).drop_last() == answers.take(fewer as int));
        assert(answers.take(done as int).last() == answers[fewer as int]);
        assert(candidates.take(done as int).drop_last() == candidates.take(fewer as int));
        assert(candidates.take(done as int).last() == candidates[fewer as int]);
    }
}

/// In Dynamic mode, once every candidate has been probed, the dial goes on
/// through the candidates that answered, in configured order; where none
/// answered it is given up with `NoLiveProxies`.
pub proof fn lemma_dynamic_chain(target_addr: Endpoint, candidates: Seq<Proxy>, answers: Seq<bool>)
    requires
        1 <= candidates.len() <= usize::MAX,
        answers.len() == candidates.len(),
    ensures
        DialView::probing(target_addr, candidates).probe(answers) == (DialView {
            target_addr,
            candidates,
            chain: survivors(candidates, answers),
            phase: if survivors(candidates, answers).len() == 0 {
                Phase::Failed { error: DialError::NoLiveProxies }
            } else {
                Phase::Opening
            },
        }),
{
    let last = (candidates.len() - 1) as nat;
    lemma_probing_prefix(target_addr, candidates, answers, last);
    assert(answers.drop_last() == answers.take(last as int));
    assert(candidates.drop_last() == candidates.take(last as int));
}

} // verus!
