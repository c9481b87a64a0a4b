//! Who may open this box's own surfaces.
//!
//! A box answers to one credential of its own, scoped to its own household, and
//! to one for each energy manager the household has connected. A manager's
//! credential reads and writes the record and does not export the household's
//! history, which is the household's own to ask for.

use vstd::prelude::*;

use crate::text::{same, starts_with};

verus! {

// ── Fresh tokens ────────────────────────────────────────────────────────────

/// The operating system had no randomness to give.
#[derive(Debug, Clone, Copy, PartialEq, Eq, Structural)]
pub struct NoEntropy;

/// `getrandom::fill` on thirty-two bytes. What it writes is the operating
/// system's, so nothing is said of it, nor of whether there was any to give.
#[verifier::external_body]
fn entropy() -> (r: Option<[u8; 32]>) {
    let mut bytes = [0u8; 32];
    getrandom::fill(&mut bytes).ok().map(|()| bytes)
}

/// One hexadecimal digit, in lower case.
pub open spec fn hex_digit(n: int) -> char {
    if n < 10 {
        (48 + n) as char
    } else {
        (87 + n) as char
    }
}

/// Bytes in hexadecimal: two digits each, the high half first.
pub open spec fn hex_text(bytes: Seq<u8>) -> Seq<char> {
    Seq::new(
        2 * bytes.len(),
        |i: int|
            if i % 2 == 0 {
                hex_digit(bytes[i / 2] as int / 16)
            } else {
                hex_digit(bytes[i / 2] as int % 16)
            },
    )
}

/// `hex::encode`: bytes in lower-case hexadecimal, two digits each.
#[verifier::external_body]
fn hex_encode(bytes: &[u8]) -> (text: String)
    ensures
        text@ == hex_text(bytes@),
{
    hex::encode(bytes)
}

/// Whether a text is hexadecimal digits in lower case.
pub open spec fn is_hex(s: Seq<char>) -> bool {
    forall|i: int| 0 <= i < s.len() ==> '0' <= #[trigger] s[i] <= '9' || 'a' <= s[i] <= 'f'
}

/// The token some bytes make.
pub fn token_of(bytes: &[u8]) -> (token: String)
    ensures
        token@ == hex_text(bytes@),
        token@.len() == 2 * bytes@.len(),
        is_hex(token@),
{
    let token = hex_encode(bytes);
    assert forall|i: int| 0 <= i < token@.len() implies '0' <= #[trigger] token@[i] <= '9' || 'a'
        <= token@[i] <= 'f' by {
        let b = bytes@[i / 2] as int;
        assert(0 <= b / 16 < 16);
        assert(0 <= b % 16 < 16);
    }
    token
}

/// A token nobody can guess: thirty-two bytes of the operating system's own.
pub fn generate() -> (r: Result<String, NoEntropy>)
    ensures
        r matches Ok(token) ==> token@.len() == 64 && is_hex(token@),
{
    token_from(entropy())
}

/// The token of what the operating system gave: one of its bytes, and none where it
/// gave nothing.
pub fn token_from(drawn: Option<[u8; 32]>) -> (r: Result<String, NoEntropy>)
    ensures
        match drawn {
            Some(bytes) => {
                &&& r matches Ok(token)
                &&& token@ == hex_text(bytes@)
                &&& token@.len() == 64
                &&& is_hex(token@)
            },
            None => r == Err::<String, NoEntropy>(NoEntropy),
        },
{
    match drawn {
        Some(bytes) => Ok(token_of(&bytes)),
        None => Err(NoEntropy),
    }
}

// ── Who is asking ───────────────────────────────────────────────────────────

/// What a credential allows, and on which household.
#[derive(Debug)]
pub struct Authority {
    /// Whose it is.
    pub subject: String,
    /// Which household it is scoped to.
    pub site: String,
    /// Whether it reads the record.
    pub reads: bool,
    /// Whether it writes the record.
    pub writes: bool,
    /// Whether it exports the household's history.
    pub exports: bool,
}

impl Authority {
    /// Whether it reads a household's record.
    pub fn may_read(&self, site: &str) -> (r: bool)
        ensures
            r == (self.reads && self.site@ == site@),
    {
        self.reads && same(self.site.as_str(), site)
    }

    /// Whether it writes a household's record.
    pub fn may_write(&self, site: &str) -> (r: bool)
        ensures
            r == (self.writes && self.site@ == site@),
    {
        self.writes && same(self.site.as_str(), site)
    }

    /// Whether it exports a household's history.
    pub fn may_read_everything(&self, site: &str) -> (r: bool)
        ensures
            r == (self.exports && self.site@ == site@),
    {
        self.exports && same(self.site.as_str(), site)
    }

    /// Whether it reads every household. A credential of a box is scoped to one.
    pub fn may_read_the_fleet(&self) -> (r: bool)
        ensures
            !r,
    {
        false
    }
}

/// A token and what it allows.
#[derive(Debug)]
pub struct Granted {
    /// The token.
    pub token: String,
    /// What the household called the manager that presents it; none for its own.
    pub manager: Option<String>,
    /// What it allows.
    pub authority: Authority,
}

/// Whether a credential is the household's own.
pub open spec fn is_own(g: Granted, site: Seq<char>, token: Seq<char>) -> bool {
    &&& g.token@ == token
    &&& g.manager is None
    &&& g.authority.subject@ == site
    &&& g.authority.site@ == site
    &&& g.authority.reads && g.authority.writes && g.authority.exports
}

/// What the household called the manager that presents a credential.
pub open spec fn called(g: Granted) -> Option<Seq<char>> {
    match g.manager {
        Some(name) => Some(name@),
        None => None,
    }
}

/// Whether a credential is one manager's.
pub open spec fn is_managers(
    g: Granted,
    site: Seq<char>,
    name: Seq<char>,
    token: Seq<char>,
) -> bool {
    &&& g.token@ == token
    &&& called(g) == Some(name)
    &&& g.authority.subject@ == "cem:"@ + name
    &&& g.authority.site@ == site
    &&& g.authority.reads && g.authority.writes && !g.authority.exports
}

/// Whether some credential of a list has a token.
pub open spec fn opens(credentials: Seq<Granted>, token: Seq<char>) -> bool {
    exists|i: int| 0 <= i < credentials.len() && #[trigger] credentials[i].token@ == token
}

/// The first credential of a list that has a token.
pub open spec fn first_with(credentials: Seq<Granted>, token: Seq<char>, i: int) -> bool {
    &&& 0 <= i < credentials.len()
    &&& credentials[i].token@ == token
    &&& forall|j: int| 0 <= j < i ==> #[trigger] credentials[j].token@ != token
}

/// The token a header presents: what stands behind `Bearer ` in it, where
/// anything does.
pub open spec fn bearer_token(header: Option<Seq<char>>) -> Option<Seq<char>> {
    match header {
        Some(h) => if crate::text::begins_with(h, "Bearer "@) && h.len() > 7 {
            Some(h.skip(7))
        } else {
            None
        },
        None => None,
    }
}

/// Whether an answer is what the first credential with the presented token
/// allows, and none where nothing was presented that opens anything.
pub open spec fn answers(
    credentials: Seq<Granted>,
    header: Option<Seq<char>>,
    answer: Option<Authority>,
) -> bool {
    match bearer_token(header) {
        Some(token) => match answer {
            Some(a) => exists|i: int|
                #[trigger] first_with(credentials, token, i) && credentials[i].authority == a,
            None => !opens(credentials, token),
        },
        None => answer is None,
    }
}

/// The token a header presents.
pub fn bearer<'a>(header: Option<&'a str>) -> (r: Option<&'a str>)
    ensures
        match r {
            Some(token) => bearer_token(
                match header {
                    Some(h) => Some(h@),
                    None => None,
                },
            ) == Some(token@),
            None => bearer_token(
                match header {
                    Some(h) => Some(h@),
                    None => None,
                },
            ) is None,
        },
{
    let h: &str = match header {
        Some(h) => h,
        None => {
            return None;
        },
    };
    let n: usize = h.unicode_len();
    if starts_with(h, "Bearer ") && n > 7 {
        assert(h@.subrange(7, n as int) =~= h@.skip(7));
        Some(h.substring_char(7, n))
    } else {
        None
    }
}

/// The credentials one box answers to.
pub struct LocalAccess {
    credentials: Vec<Granted>,
    site: String,
    own: String,
}

/// One energy manager the household has connected.
#[derive(Debug)]
pub struct Manager {
    /// What the household called it.
    pub name: String,
}

/// How a box came by its token.
#[derive(Debug, Clone, Copy, PartialEq, Eq, Structural)]
pub enum How {
    /// Somebody configured it.
    Configured,
    /// The box issued it before and remembered it.
    Remembered,
    /// The box issued it now and will remember it.
    Fresh,
    /// The box issued it now and has nothing to remember it in.
    Ephemeral,
}

impl Default for How {
    fn default() -> (h: Self)
        ensures
            h == How::Remembered,
    {
        How::Remembered
    }
}

/// A token a box answers to, and how it came by it.
#[derive(Debug)]
pub struct Issued {
    /// The token.
    pub token: String,
    /// How the box came by it.
    pub how: How,
}

impl Default for Issued {
    fn default() -> (i: Self)
        ensures
            i.token@.len() == 0,
            i.how == How::Remembered,
    {
        Issued { token: String::new(), how: How::Remembered }
    }
}

impl Issued {
    /// What is said of the token to whoever commissions the box: nothing of one
    /// that was configured, since whoever configured it already has it.
    pub open spec fn announced(self) -> Option<Seq<char>> {
        match self.how {
            How::Configured => None,
            How::Remembered => Some(
                "🔑 API  "@ + self.token@
                    + "\n   the bearer token for this box's own surfaces, kept in its store"@,
            ),
            How::Fresh => Some(
                "🔑 API  "@ + self.token@
                    + "\n   the bearer token for this box's own surfaces, kept in its store"@,
            ),
            How::Ephemeral => Some(
                "🔑 API  "@ + self.token@
                    + "\n   this box keeps no store, so this token lasts until it restarts"@,
            ),
        }
    }

    /// What is said of the token to whoever commissions the box.
    pub fn announcement(&self) -> (r: Option<String>)
        ensures
            match r {
                Some(text) => self.announced() == Some(text@),
                None => self.announced() is None,
            },
    {
        let ending: &str = match self.how {
            How::Configured => {
                return None;
            },
            How::Remembered | How::Fresh =>
                "\n   the bearer token for this box's own surfaces, kept in its store",
            How::Ephemeral =>
                "\n   this box keeps no store, so this token lasts until it restarts",
        };
        let mut out = String::new();
        out.append("🔑 API  ");
        out.append(self.token.as_str());
        out.append(ending);
        assert(out@ =~= "🔑 API  "@ + self.token@ + ending@);
        Some(out)
    }
}

/// What the box's store holds of a token.
#[derive(Debug)]
pub enum Kept {
    /// There is no store.
    NoStore,
    /// There is one, and it holds none.
    Nothing,
    /// It holds this one.
    Token(String),
}

/// Why a request is turned away.
#[derive(Debug, Clone, Copy, PartialEq, Eq, Structural)]
pub enum Refusal {
    /// It presented no credential this box answers to.
    Unauthorized,
    /// Its credential does not go that far.
    Forbidden,
}

fn own_credential(site: &str, token: &str) -> (g: Granted)
    ensures
        is_own(g, site@, token@),
{
    Granted {
        token: token.to_owned(),
        manager: None,
        authority: Authority {
            subject: site.to_owned(),
            site: site.to_owned(),
            reads: true,
            writes: true,
            exports: true,
        },
    }
}

fn manager_credential(site: &str, name: &str, token: &str) -> (g: Granted)
    ensures
        is_managers(g, site@, name@, token@),
{
    let mut subject = String::new();
    subject.append("cem:");
    subject.append(name);
    assert(subject@ =~= "cem:"@ + name@);
    Granted {
        token: token.to_owned(),
        manager: Some(name.to_owned()),
        authority: Authority {
            subject,
            site: site.to_owned(),
            reads: true,
            writes: true,
            exports: false,
        },
    }
}

/// The token a box answers to and how it came by it, where there is one.
pub open spec fn answered(
    configured: Option<String>,
    kept: Kept,
    drawn: Result<String, NoEntropy>,
) -> Option<(Seq<char>, How)> {
    match (configured, kept, drawn) {
        (Some(token), _, _) => Some((token@, How::Configured)),
        (None, Kept::Token(token), _) => Some((token@, How::Remembered)),
        (None, Kept::Nothing, Ok(token)) => Some((token@, How::Fresh)),
        (None, Kept::NoStore, Ok(token)) => Some((token@, How::Ephemeral)),
        (None, _, Err(_)) => None,
    }
}

impl LocalAccess {
    /// The credentials, in the order they were granted.
    pub closed spec fn granted(self) -> Seq<Granted> {
        self.credentials@
    }

    /// Which household this box is.
    pub closed spec fn household(self) -> Seq<char> {
        self.site@
    }

    /// The box's own token.
    pub closed spec fn own_token(self) -> Seq<char> {
        self.own@
    }

    /// The box's own credential comes first, every other one is a manager's, and
    /// all of them are scoped to this household.
    pub open spec fn is_sound(self) -> bool {
        &&& self.granted().len() > 0
        &&& is_own(self.granted()[0], self.household(), self.own_token())
        &&& forall|i: int|
            0 < i < self.granted().len() ==> {
                &&& called(#[trigger] self.granted()[i]) matches Some(name)
                &&& is_managers(
                    self.granted()[i],
                    self.household(),
                    name,
                    self.granted()[i].token@,
                )
            }
    }

    /// The managers that are let in, with the token of each, in the order they were
    /// connected.
    pub open spec fn connected(self) -> Seq<(Seq<char>, Seq<char>)> {
        managers_of(self.granted())
    }

    /// A box that answers to one token of its own.
    pub fn for_testing(site: &str, token: &str) -> (a: Self)
        ensures
            a.is_sound(),
            a.household() == site@,
            a.own_token() == token@,
            a.granted().len() == 1,
    {
        let mut credentials: Vec<Granted> = Vec::new();
        credentials.push(own_credential(site, token));
        LocalAccess { credentials, site: site.to_owned(), own: token.to_owned() }
    }

    /// The token this box answers to, and how it came by it, with one that was or was
    /// not drawn for it: the configured one where there is one, else the one the store
    /// holds, else the one that was drawn. One token makes both the credential and
    /// what is announced.
    pub fn resolve_with(
        configured: Option<String>,
        kept: Kept,
        site: &str,
        drawn: Result<String, NoEntropy>,
    ) -> (r: Result<(LocalAccess, Issued), NoEntropy>)
        ensures
            answered(configured, kept, drawn) is None <==> r is Err,
            r matches Ok((access, issued)) ==> {
                &&& access.is_sound()
                &&& access.household() == site@
                &&& access.granted().len() == 1
                &&& access.own_token() == issued.token@
                &&& answered(configured, kept, drawn) == Some((issued.token@, issued.how))
            },
    {
        let (token, how): (String, How) = match (configured, kept) {
            (Some(token), _) => (token, How::Configured),
            (None, Kept::Token(token)) => (token, How::Remembered),
            (None, Kept::Nothing) => (drawn?, How::Fresh),
            (None, Kept::NoStore) => (drawn?, How::Ephemeral),
        };
        let access = Self::for_testing(site, token.as_str());
        Ok((access, Issued { token, how }))
    }

    /// The token this box answers to, and how it came by it: the configured one
    /// where there is one, else the one the store holds, else a fresh one. Only where
    /// there is neither is one drawn; which it is, and whether the machine has the
    /// randomness for it, is chance.
    pub fn resolve(configured: Option<String>, kept: Kept, site: &str) -> (r: Result<
        (LocalAccess, Issued),
        NoEntropy,
    >)
        ensures
            configured is Some ==> r is Ok,
            kept is Token ==> r is Ok,
            r matches Ok((access, issued)) ==> {
                &&& access.is_sound()
                &&& access.household() == site@
                &&& access.own_token() == issued.token@
                &&& access.granted().len() == 1
                &&& match configured {
                    Some(token) => issued.token@ == token@ && issued.how == How::Configured,
                    None => match kept {
                        Kept::Token(token) => issued.token@ == token@ && issued.how
                            == How::Remembered,
                        Kept::Nothing => issued.token@.len() == 64 && is_hex(issued.token@)
                            && issued.how == How::Fresh,
                        Kept::NoStore => issued.token@.len() == 64 && is_hex(issued.token@)
                            && issued.how == How::Ephemeral,
                    },
                }
            },
    {
        let drawn = if configured.is_some() || matches!(kept, Kept::Token(_)) {
            Err(NoEntropy)
        } else {
            generate()
        };
        Self::resolve_with(configured, kept, site, drawn)
    }

    fn let_in(&mut self, name: &str, token: &str)
        requires
            old(self).is_sound(),
        ensures
            final(self).is_sound(),
            final(self).household() == old(self).household(),
            final(self).own_token() == old(self).own_token(),
            final(self).connected() == old(self).connected().push((name@, token@)),
    {
        let g = manager_credential(self.site.as_str(), name, token);
        self.credentials.push(g);
        assert(self.connected() =~= old(self).connected().push((name@, token@)));
    }

    /// Let a manager in with a token. Naming one that is already connected replaces
    /// its credential: the old token opens nothing from here on.
    pub fn connect_manager(&mut self, name: &str, token: &str)
        requires
            old(self).is_sound(),
        ensures
            final(self).is_sound(),
            final(self).household() == old(self).household(),
            final(self).own_token() == old(self).own_token(),
            final(self).connected() == rotated(old(self).connected(), name@, token@),
    {
        self.forget_manager(name);
        self.let_in(name, token);
    }

    /// Let back in the managers the store remembers, one after the other. Returns how
    /// many they are.
    pub fn restore(&mut self, managers: &Vec<(String, String)>) -> (n: usize)
        requires
            old(self).is_sound(),
        ensures
            final(self).is_sound(),
            n == managers@.len(),
            final(self).household() == old(self).household(),
            final(self).own_token() == old(self).own_token(),
            final(self).connected() == restored(old(self).connected(), managers@),
    {
        let mut i: usize = 0;
        assert(managers@.take(0) =~= Seq::empty());
        while i < managers.len()
            invariant
                i <= managers@.len(),
                self.is_sound(),
                self.household() == old(self).household(),
                self.own_token() == old(self).own_token(),
                self.connected() == restored(old(self).connected(), managers@.take(i as int)),
            decreases managers@.len() - i,
        {
            assert(managers@.take(i + 1).drop_last() =~= managers@.take(i as int));
            self.connect_manager(managers[i].0.as_str(), managers[i].1.as_str());
            i = i + 1;
        }
        assert(managers@.take(managers@.len() as int) =~= managers@);
        managers.len()
    }

    /// Withdraw one manager: its credential opens nothing from here on, and every
    /// other one stays. Returns whether it was connected.
    pub fn forget_manager(&mut self, name: &str) -> (existed: bool)
        requires
            old(self).is_sound(),
        ensures
            final(self).is_sound(),
            final(self).household() == old(self).household(),
            final(self).own_token() == old(self).own_token(),
            existed == is_connected(old(self).connected(), name@),
            final(self).connected() == without(old(self).connected(), name@),
    {
        let ghost all = self.granted();
        let ghost list = self.connected();
        let mut held: Vec<Granted> = Vec::new();
        std::mem::swap(&mut held, &mut self.credentials);
        let own = held.remove(0);
        self.credentials.push(own);
        let mut existed: bool = false;
        assert(held@ =~= all.skip(1));
        assert(self.connected() =~= without(list.take(0), name@));
        while held.len() > 0
            invariant
                old(self).is_sound(),
                all == old(self).granted(),
                list == managers_of(all),
                held@.len() <= list.len(),
                held@ == all.skip(all.len() - held@.len()),
                self.is_sound(),
                self.household() == old(self).household(),
                self.own_token() == old(self).own_token(),
                self.connected() == without(list.take(list.len() - held@.len()), name@),
                existed == is_connected(list.take(list.len() - held@.len()), name@),
            decreases held@.len(),
        {
            let ghost k = list.len() - held@.len();
            let ghost upto = list.take(k);
            let ghost before = self.connected();
            let g = held.remove(0);
            assert(g == all[k + 1]);
            assert(held@ =~= all.skip(k + 2));
            assert(list.take(k + 1).drop_last() =~= upto);
            assert(list.take(k + 1).last() == list[k]);
            let named: bool = match &g.manager {
                Some(n) => same(n.as_str(), name),
                None => false,
            };
            proof {
                lemma_connected_grows(upto, list[k], name@);
                assert(upto.push(list[k]) =~= list.take(k + 1));
            }
            if named {
                existed = true;
            } else {
                self.credentials.push(g);
                assert(self.connected() =~= before.push(list[k]));
            }
        }
        assert(list.take(list.len() as int) =~= list);
        existed
    }

    /// The energy managers that are connected, as the household called them.
    pub fn managers(&self) -> (r: Vec<Manager>)
        requires
            self.is_sound(),
        ensures
            r@.len() == self.connected().len(),
            forall|i: int| 0 <= i < r@.len() ==> (#[trigger] r@[i]).name@ == self.connected()[i].0,
    {
        let mut r: Vec<Manager> = Vec::new();
        let mut i: usize = 1;
        while i < self.credentials.len()
            invariant
                1 <= i <= self.credentials@.len(),
                self.is_sound(),
                r@.len() == i - 1,
                forall|j: int| 0 <= j < r@.len() ==> (#[trigger] r@[j]).name@ == self.connected()[j].0,
            decreases self.credentials@.len() - i,
        {
            assert(called(self.granted()[i as int]) is Some);
            assert(self.connected()[i - 1].0 == called(self.granted()[i as int]).unwrap());
            if let Some(name) = &self.credentials[i].manager {
                r.push(Manager { name: name.clone() });
            }
            i = i + 1;
        }
        r
    }

    /// What a header presents a credential for, where this box answers to it.
    pub fn authority(&self, header: Option<&str>) -> (r: Option<&Authority>)
        ensures
            answers(
                self.granted(),
                match header {
                    Some(h) => Some(h@),
                    None => None,
                },
                match r {
                    Some(a) => Some(*a),
                    None => None,
                },
            ),
    {
        let token: &str = match bearer(header) {
            Some(token) => token,
            None => {
                return None;
            },
        };
        let ghost presented = bearer_token(
            match header {
                Some(h) => Some(h@),
                None => None,
            },
        );
        let mut i: usize = 0;
        while i < self.credentials.len()
            invariant
                i <= self.credentials@.len(),
                presented == bearer_token(
                    match header {
                        Some(h) => Some(h@),
                        None => None,
                    },
                ),
                presented == Some(token@),
                forall|j: int| 0 <= j < i ==> #[trigger] self.credentials@[j].token@ != token@,
            decreases self.credentials@.len() - i,
        {
            if same(self.credentials[i].token.as_str(), token) {
                let a: &Authority = &self.credentials[i].authority;
                assert(self.granted()[i as int].authority == *a);
                assert(presented matches Some(t) && first_with(self.granted(), t, i as int));
                return Some(a);
            }
            i = i + 1;
        }
        None
    }

    /// Which household this box is.
    pub fn site(&self) -> (s: &str)
        ensures
            s@ == self.household(),
    {
        self.site.as_str()
    }

    /// Whether a request may pass: it has to present a credential this box
    /// answers to, and one that exports where it asks for the household's
    /// history.
    pub fn require_token(&self, header: Option<&str>, path: &str) -> (r: Result<(), Refusal>)
        requires
            self.is_sound(),
        ensures
            ({
                let presented = bearer_token(
                    match header {
                        Some(h) => Some(h@),
                        None => None,
                    },
                );
                let known = presented matches Some(token) && opens(self.granted(), token);
                let own = presented == Some(self.own_token());
                r == if !known {
                    Err(Refusal::Unauthorized)
                } else if crate::text::begins_with(path@, "/v1/series"@) && !own {
                    Err(Refusal::Forbidden)
                } else {
                    Ok(())
                }
            }),
    {
        let authority: &Authority = match self.authority(header) {
            Some(a) => a,
            None => {
                return Err(Refusal::Unauthorized);
            },
        };
        proof {
            let token = bearer_token(
                match header {
                    Some(h) => Some(h@),
                    None => None,
                },
            ).unwrap();
            let i = choose|i: int|
                #[trigger] first_with(self.granted(), token, i) && self.granted()[i].authority
                    == *authority;
            assert(self.granted()[i].token@ == token);
            assert(opens(self.granted(), token));
            if i > 0 {
                assert(self.granted()[0].token@ != token);
            }
        }
        if !authority.may_read(self.site.as_str()) {
            return Err(Refusal::Unauthorized);
        }
        if starts_with(path, "/v1/series") && !authority.may_read_everything(self.site.as_str()) {
            return Err(Refusal::Forbidden);
        }
        Ok(())
    }
}

// ── Who is connected ────────────────────────────────────────────────────────

/// The managers of a list of credentials whose first is the household's own, with
/// the token of each.
pub open spec fn managers_of(granted: Seq<Granted>) -> Seq<(Seq<char>, Seq<char>)> {
    Seq::new(
        (granted.len() - 1) as nat,
        |i: int| (called(granted[i + 1]).unwrap(), granted[i + 1].token@),
    )
}

/// Whether a manager is among those that are connected.
pub open spec fn is_connected(list: Seq<(Seq<char>, Seq<char>)>, name: Seq<char>) -> bool {
    exists|i: int| 0 <= i < list.len() && (#[trigger] list[i]).0 == name
}

/// Those that are connected, less one.
pub open spec fn without(list: Seq<(Seq<char>, Seq<char>)>, name: Seq<char>) -> Seq<
    (Seq<char>, Seq<char>),
>
    decreases list.len(),
{
    if list.len() == 0 {
        Seq::empty()
    } else if list.last().0 == name {
        without(list.drop_last(), name)
    } else {
        without(list.drop_last(), name).push(list.last())
    }
}

/// Those that are connected after one was named with a token: it has that one and no
/// other.
pub open spec fn rotated(
    list: Seq<(Seq<char>, Seq<char>)>,
    name: Seq<char>,
    token: Seq<char>,
) -> Seq<(Seq<char>, Seq<char>)> {
    without(list, name).push((name, token))
}

/// Those that are connected after a list of them was let in, one after the other.
pub open spec fn restored(
    list: Seq<(Seq<char>, Seq<char>)>,
    managers: Seq<(String, String)>,
) -> Seq<(Seq<char>, Seq<char>)>
    decreases managers.len(),
{
    if managers.len() == 0 {
        list
    } else {
        rotated(
            restored(list, managers.drop_last()),
            managers.last().0@,
            managers.last().1@,
        )
    }
}

proof fn lemma_connected_grows(
    list: Seq<(Seq<char>, Seq<char>)>,
    next: (Seq<char>, Seq<char>),
    name: Seq<char>,
)
    ensures
        is_connected(list.push(next), name) <==> is_connected(list, name) || next.0 == name,
{
    let grown = list.push(next);
    if is_connected(list, name) {
        let i = choose|i: int| 0 <= i < list.len() && (#[trigger] list[i]).0 == name;
        assert(grown[i].0 == name);
    }
    if next.0 == name {
        assert(grown[list.len() as int].0 == name);
    }
    if is_connected(grown, name) {
        let i = choose|i: int| 0 <= i < grown.len() && (#[trigger] grown[i]).0 == name;
        if i < list.len() {
            assert(list[i].0 == name);
        }
    }
}

proof fn lemma_without(
    list: Seq<(Seq<char>, Seq<char>)>,
    name: Seq<char>,
    entry: (Seq<char>, Seq<char>),
)
    ensures
        without(list, name).contains(entry) <==> list.contains(entry) && entry.0 != name,
    decreases list.len(),
{
    if list.len() > 0 {
        let rest = list.drop_last();
        lemma_without(rest, name, entry);
        lemma_contains_last(list, entry);
        if list.last().0 != name {
            let kept = without(rest, name).push(list.last());
            lemma_contains_last(kept, entry);
            assert(kept.drop_last() =~= without(rest, name));
        }
    }
}

proof fn lemma_contains_last(
    list: Seq<(Seq<char>, Seq<char>)>,
    entry: (Seq<char>, Seq<char>),
)
    requires
        list.len() > 0,
    ensures
        list.contains(entry) <==> list.drop_last().contains(entry) || list.last() == entry,
{
    if list.drop_last().contains(entry) {
        let i = choose|i: int| 0 <= i < list.len() - 1 && #[trigger] list.drop_last()[i] == entry;
        assert(list[i] == entry);
    }
    if list.contains(entry) {
        let i = choose|i: int| 0 <= i < list.len() && #[trigger] list[i] == entry;
        if i < list.len() - 1 {
            assert(list.drop_last()[i] == entry);
        }
    }
    assert(list[list.len() - 1] == list.last());
}

/// Whether some connected manager presents a token.
pub open spec fn presents(list: Seq<(Seq<char>, Seq<char>)>, token: Seq<char>) -> bool {
    exists|name: Seq<char>| #[trigger] list.contains((name, token))
}

proof fn lemma_opens(access: LocalAccess, token: Seq<char>)
    requires
        access.is_sound(),
    ensures
        opens(access.granted(), token) <==> token == access.own_token() || presents(
            access.connected(),
            token,
        ),
{
    let list = access.connected();
    if opens(access.granted(), token) {
        let i = choose|i: int|
            0 <= i < access.granted().len() && #[trigger] access.granted()[i].token@ == token;
        if i > 0 {
            assert(list[i - 1] == (called(access.granted()[i]).unwrap(), token));
            assert(list.contains((called(access.granted()[i]).unwrap(), token)));
        }
    }
    if token == access.own_token() {
        assert(access.granted()[0].token@ == token);
    }
    if presents(list, token) {
        let name = choose|name: Seq<char>| #[trigger] list.contains((name, token));
        let i = choose|i: int| 0 <= i < list.len() && #[trigger] list[i] == (name, token);
        assert(access.granted()[i + 1].token@ == token);
    }
}

// ── What holds of the credentials ───────────────────────────────────────────

/// The token a box announces is the token it answers to: whoever presents it is let
/// in as the household. An empty one cannot be presented.
pub proof fn the_token_announced_is_the_token_accepted(access: LocalAccess)
    requires
        access.is_sound(),
    ensures
        opens(access.granted(), access.own_token()),
        first_with(access.granted(), access.own_token(), 0),
        access.own_token().len() > 0 ==> bearer_token(Some("Bearer "@ + access.own_token()))
            == Some(access.own_token()),
{
    assert(access.granted()[0].token@ == access.own_token());
    reveal_strlit("Bearer ");
    assert(("Bearer "@ + access.own_token()).skip(7) =~= access.own_token());
    assert(("Bearer "@ + access.own_token()).take(7) =~= "Bearer "@);
}

/// Withdrawing a manager shuts it out and nobody else: afterwards a token opens the
/// box where it is the household's own or that of a manager of another name.
pub proof fn a_withdrawn_token_opens_nothing(
    before: LocalAccess,
    after: LocalAccess,
    name: Seq<char>,
    token: Seq<char>,
)
    requires
        before.is_sound(),
        after.is_sound(),
        after.own_token() == before.own_token(),
        after.connected() == without(before.connected(), name),
    ensures
        opens(after.granted(), token) <==> token == before.own_token() || exists|other: Seq<char>|
            other != name && #[trigger] before.connected().contains((other, token)),
{
    lemma_opens(after, token);
    if presents(after.connected(), token) {
        let other = choose|other: Seq<char>| #[trigger]
            after.connected().contains((other, token));
        lemma_without(before.connected(), name, (other, token));
    }
    assert forall|other: Seq<char>|
        other != name && #[trigger] before.connected().contains((other, token)) implies presents(
        after.connected(),
        token,
    ) by {
        lemma_without(before.connected(), name, (other, token));
        assert(after.connected().contains((other, token)));
    }
}

/// Naming a connected manager again rotates its credential: its new token opens the
/// box, and an old one does not unless it is also somebody else's.
pub proof fn naming_a_manager_again_rotates_its_token(
    before: LocalAccess,
    after: LocalAccess,
    name: Seq<char>,
    fresh: Seq<char>,
    token: Seq<char>,
)
    requires
        before.is_sound(),
        after.is_sound(),
        after.own_token() == before.own_token(),
        after.connected() == rotated(before.connected(), name, fresh),
    ensures
        opens(after.granted(), fresh),
        opens(after.granted(), token) <==> token == fresh || token == before.own_token()
            || exists|other: Seq<char>|
            other != name && #[trigger] before.connected().contains((other, token)),
{
    let list = after.connected();
    let left = without(before.connected(), name);
    assert(list.drop_last() =~= left);
    lemma_opens(after, token);
    lemma_opens(after, fresh);
    assert(list.last() == (name, fresh));
    lemma_contains_last(list, (name, fresh));
    assert(list.contains((name, fresh)));
    if presents(list, token) {
        let other = choose|other: Seq<char>| #[trigger] list.contains((other, token));
        lemma_contains_last(list, (other, token));
        lemma_without(before.connected(), name, (other, token));
    }
    assert forall|other: Seq<char>|
        other != name && #[trigger] before.connected().contains((other, token)) implies presents(
        list,
        token,
    ) by {
        lemma_without(before.connected(), name, (other, token));
        lemma_contains_last(list, (other, token));
        assert(list.contains((other, token)));
    }
}

/// No credential of this box reaches another household, and only the box's own
/// exports the household's history.
pub proof fn a_credential_stays_in_its_household(access: LocalAccess, token: Seq<char>, i: int)
    requires
        access.is_sound(),
        first_with(access.granted(), token, i),
    ensures
        access.granted()[i].authority.site@ == access.household(),
        access.granted()[i].authority.exports <==> token == access.own_token(),
{
    if token == access.own_token() {
        assert(access.granted()[0].token@ == token);
    }
}

/// A header presents a token where it is `Bearer ` and the token, and no other header
/// presents one.
pub proof fn a_header_presents_what_stands_behind_bearer(header: Seq<char>, token: Seq<char>)
    ensures
        bearer_token(Some(header)) == Some(token) <==> header == "Bearer "@ + token && token.len()
            > 0,
        bearer_token(None) is None,
{
    reveal_strlit("Bearer ");
    let lead = "Bearer "@;
    if header == lead + token && token.len() > 0 {
        assert((lead + token).take(7) =~= lead);
        assert((lead + token).skip(7) =~= token);
    }
    if bearer_token(Some(header)) == Some(token) {
        assert(header =~= header.take(7) + header.skip(7));
    }
}

/// What a request may do is what the first credential with its token allows: the household's
/// own everything, a manager's all but exporting, and both only of this household. A token
/// nobody was given allows nothing.
pub proof fn a_request_may_do_what_its_credential_allows(
    access: LocalAccess,
    header: Option<Seq<char>>,
    answer: Option<Authority>,
)
    requires
        access.is_sound(),
        answers(access.granted(), header, answer),
    ensures
        answer is Some <==> bearer_token(header) is Some && opens(
            access.granted(),
            bearer_token(header)->Some_0,
        ),
        answer matches Some(a) ==> {
            &&& a.site@ == access.household()
            &&& a.reads && a.writes
            &&& a.exports <==> bearer_token(header) == Some(access.own_token())
        },
{
    if let Some(token) = bearer_token(header) {
        if let Some(a) = answer {
            let i = choose|i: int|
                #[trigger] first_with(access.granted(), token, i) && access.granted()[i].authority
                    == a;
            a_credential_stays_in_its_household(access, token, i);
            assert(access.granted()[i].token@ == token);
            if i > 0 {
                assert(called(access.granted()[i]) is Some);
            }
        } else {
            assert(!opens(access.granted(), token));
        }
    }
}

/// Whose a credential is and what it allows.
pub proof fn a_credential_says_whose_it_is(
    g: Granted,
    site: Seq<char>,
    name: Seq<char>,
    token: Seq<char>,
)
    ensures
        is_own(g, site, token) ==> g.token@ == token && g.manager is None && g.authority.subject@
            == site && g.authority.site@ == site && g.authority.reads && g.authority.writes
            && g.authority.exports,
        is_managers(g, site, name, token) ==> g.token@ == token && g.manager is Some
            && g.manager->Some_0@ == name && g.authority.subject@ == "cem:"@ + name
            && g.authority.site@ == site && g.authority.reads && g.authority.writes
            && !g.authority.exports,
{
}

/// Withdrawing a manager leaves every other one, in the order they were connected and with
/// the token it had; naming one puts it last, with the one token it was given.
pub proof fn every_other_manager_keeps_its_place(
    list: Seq<(Seq<char>, Seq<char>)>,
    name: Seq<char>,
    token: Seq<char>,
    entry: (Seq<char>, Seq<char>),
)
    ensures
        without(list, name).contains(entry) <==> list.contains(entry) && entry.0 != name,
        without(list, name).len() <= list.len(),
        !is_connected(list, name) ==> without(list, name) == list,
        !is_connected(without(list, name), name),
        rotated(list, name, token).last() == (name, token),
        rotated(list, name, token).drop_last() == without(list, name),
    decreases list.len(),
{
    lemma_without(list, name, entry);
    assert(rotated(list, name, token).drop_last() =~= without(list, name));
    if is_connected(without(list, name), name) {
        let i = choose|i: int|
            0 <= i < without(list, name).len() && (#[trigger] without(list, name)[i]).0 == name;
        let e = without(list, name)[i];
        lemma_without(list, name, e);
        assert(without(list, name).contains(e));
    }
    if list.len() > 0 {
        let rest = list.drop_last();
        every_other_manager_keeps_its_place(rest, name, token, entry);
        if !is_connected(list, name) {
            if is_connected(rest, name) {
                let i = choose|i: int| 0 <= i < rest.len() && (#[trigger] rest[i]).0 == name;
                assert(list[i].0 == name);
            }
            assert(list[list.len() - 1].0 != name);
            assert(without(list, name) =~= list);
        }
    }
}

/// Managers that are let back in have the token they are remembered with; where one is
/// remembered twice, the later.
pub proof fn a_remembered_manager_has_its_token_back(
    list: Seq<(Seq<char>, Seq<char>)>,
    managers: Seq<(String, String)>,
    i: int,
)
    requires
        0 <= i < managers.len(),
        forall|j: int| i < j < managers.len() ==> (#[trigger] managers[j]).0@ != managers[i].0@,
    ensures
        restored(list, managers).contains((managers[i].0@, managers[i].1@)),
    decreases managers.len(),
{
    let n = managers.len() - 1;
    let rest = managers.drop_last();
    let entry = (managers[i].0@, managers[i].1@);
    let (name, token) = (managers.last().0@, managers.last().1@);
    let before = restored(list, rest);
    let after = restored(list, managers);
    assert(after == without(before, name).push((name, token)));
    if i < n {
        assert(managers[n].0@ != managers[i].0@);
        assert forall|j: int| i < j < rest.len() implies (#[trigger] rest[j]).0@ != rest[i].0@ by {
            assert(managers[j] == rest[j]);
        }
        a_remembered_manager_has_its_token_back(list, rest, i);
        lemma_without(before, name, entry);
        let k = without(before, name).index_of(entry);
        assert(after[k] == entry);
    } else {
        assert(after[after.len() - 1] == entry);
    }
}

/// The token a box answers to is the configured one before the kept one before the one that
/// was drawn, and there is none only where there is none of the three.
pub proof fn the_configured_token_comes_first(
    configured: Option<String>,
    kept: Kept,
    drawn: Result<String, NoEntropy>,
)
    ensures
        configured matches Some(token) ==> answered(configured, kept, drawn) == Some(
            (token@, How::Configured),
        ),
        configured is None ==> (kept matches Kept::Token(token) ==> answered(
            configured,
            kept,
            drawn,
        ) == Some((token@, How::Remembered))),
        configured is None && kept is Nothing ==> (drawn matches Ok(token) ==> answered(
            configured,
            kept,
            drawn,
        ) == Some((token@, How::Fresh))),
        configured is None && kept is NoStore ==> (drawn matches Ok(token) ==> answered(
            configured,
            kept,
            drawn,
        ) == Some((token@, How::Ephemeral))),
        configured is None && !(kept is Token) && drawn is Err ==> answered(
            configured,
            kept,
            drawn,
        ) is None,
{
}

/// Different bytes make different tokens: nothing of what was drawn is lost.
pub proof fn different_bytes_make_different_tokens(a: Seq<u8>, b: Seq<u8>)
    requires
        hex_text(a) == hex_text(b),
    ensures
        a == b,
{
    assert(hex_text(a).len() == 2 * a.len());
    assert(hex_text(b).len() == 2 * b.len());
    assert forall|i: int| 0 <= i < a.len() implies a[i] == b[i] by {
        assert((2 * i) / 2 == i && (2 * i + 1) / 2 == i);
        assert((2 * i) % 2 == 0 && (2 * i + 1) % 2 == 1);
        assert(hex_text(a)[2 * i] == hex_digit(a[i] as int / 16));
        assert(hex_text(b)[2 * i] == hex_digit(b[i] as int / 16));
        assert(hex_text(a)[2 * i + 1] == hex_digit(a[i] as int % 16));
        assert(hex_text(b)[2 * i + 1] == hex_digit(b[i] as int % 16));
        lemma_hex_digits(a[i] as int / 16, b[i] as int / 16);
        lemma_hex_digits(a[i] as int % 16, b[i] as int % 16);
    }
    assert(a =~= b);
}

proof fn lemma_hex_digits(m: int, n: int)
    requires
        0 <= m < 16,
        0 <= n < 16,
        hex_digit(m) == hex_digit(n),
    ensures
        m == n,
{
}

/// A token is written in small hexadecimal digits, and two of them read back as the
/// byte they were made from.
pub proof fn a_token_is_its_bytes_in_small_digits(bytes: Seq<u8>, i: int)
    requires
        0 <= i < bytes.len(),
    ensures
        hex_text(bytes).len() == 2 * bytes.len(),
        16 * crate::runtime::ship::nibble(hex_text(bytes)[2 * i])->Some_0
            + crate::runtime::ship::nibble(hex_text(bytes)[2 * i + 1])->Some_0 == bytes[i],
        !('A' <= hex_text(bytes)[2 * i] <= 'F') && !('A' <= hex_text(bytes)[2 * i + 1] <= 'F'),
        crate::runtime::ship::nibble(hex_text(bytes)[2 * i]) is Some,
        crate::runtime::ship::nibble(hex_text(bytes)[2 * i + 1]) is Some,
{
    assert((2 * i) / 2 == i && (2 * i + 1) / 2 == i);
    assert((2 * i) % 2 == 0 && (2 * i + 1) % 2 == 1);
    let high = bytes[i] as int / 16;
    let low = bytes[i] as int % 16;
    assert(0 <= high < 16 && 0 <= low < 16);
    assert(hex_text(bytes)[2 * i] == hex_digit(high));
    assert(hex_text(bytes)[2 * i + 1] == hex_digit(low));
}

} // verus!
