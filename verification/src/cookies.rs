//! Cookies and the delta engine that turns staged cookie intents into the
//! minimal `Set-Cookie` entries moving a client from a baseline to the
//! desired state.
//!
//! The engine keeps two structures: the names marked as baseline
//! (*original*) cookies, and the ordered list of staged intents, at most one
//! per name.  Staging a name again supersedes the earlier intent and moves
//! the name to the end of the order; emission follows that order.  At
//! finalization:
//! - a cookie staged for addition is emitted in full;
//! - a cookie marked original and staged for removal is emitted as an
//!   immediate-expiry entry carrying only its identity (name, path, domain);
//! - removing a name never marked original merely cancels its staged intent;
//! - a cookie marked original and never staged emits nothing.
use vstd::prelude::*;

verus! {

/// The attributes of one cookie, as plain values.  `expires_epoch` marks
/// the immediate-expiry form used for removals: the wire entry then carries
/// an expiry date at the epoch.
pub struct Cookie {
    name: String,
    value: String,
    domain: Option<String>,
    path: Option<String>,
    secure: bool,
    http_only: bool,
    max_age_secs: Option<i64>,
    expires_epoch: bool,
}

/// The mathematical image of a `Cookie`.
pub ghost struct CookieModel {
    pub name: Seq<char>,
    pub value: Seq<char>,
    pub domain: Option<Seq<char>>,
    pub path: Option<Seq<char>>,
    pub secure: bool,
    pub http_only: bool,
    pub max_age_secs: Option<i64>,
    pub expires_epoch: bool,
}

impl Cookie {
    /// The mathematical image of this cookie.
    pub closed spec fn model(self) -> CookieModel {
        CookieModel {
            name: self.name@,
            value: self.value@,
            domain: self.domain.deep_view(),
            path: self.path.deep_view(),
            secure: self.secure,
            http_only: self.http_only,
            max_age_secs: self.max_age_secs,
            expires_epoch: self.expires_epoch,
        }
    }

    /// A cookie with the given name and value and no attributes.
    pub fn new(name: &str, value: &str) -> (c: Cookie)
        ensures
            c.model() == (CookieModel {
                name: name@,
                value: value@,
                domain: None,
                path: None,
                secure: false,
                http_only: false,
                max_age_secs: None,
                expires_epoch: false,
            }),
    {
        Cookie {
            name: String::from_str(name),
            value: String::from_str(value),
            domain: None,
            path: None,
            secure: false,
            http_only: false,
            max_age_secs: None,
            expires_epoch: false,
        }
    }

    /// The same cookie with the domain attribute set.
    pub fn domain(self, d: &str) -> (c: Cookie)
        ensures
            c.model() == (CookieModel { domain: Some(d@), ..self.model() }),
    {
        Cookie { domain: Some(String::from_str(d)), ..self }
    }

    /// The same cookie with the path attribute set.
    pub fn path(self, p: &str) -> (c: Cookie)
        ensures
            c.model() == (CookieModel { path: Some(p@), ..self.model() }),
    {
        Cookie { path: Some(String::from_str(p)), ..self }
    }

    /// The same cookie with the secure flag set.
    pub fn secure(self, b: bool) -> (c: Cookie)
        ensures
            c.model() == (CookieModel { secure: b, ..self.model() }),
    {
        Cookie { secure: b, ..self }
    }

    /// The same cookie with the http-only flag set.
    pub fn http_only(self, b: bool) -> (c: Cookie)
        ensures
            c.model() == (CookieModel { http_only: b, ..self.model() }),
    {
        Cookie { http_only: b, ..self }
    }

    /// The same cookie with the max-age attribute set, in whole seconds.
    pub fn max_age_secs(self, secs: i64) -> (c: Cookie)
        ensures
            c.model() == (CookieModel { max_age_secs: Some(secs), ..self.model() }),
    {
        Cookie { max_age_secs: Some(secs), ..self }
    }

    /// The cookie's name.
    pub fn name_str(&self) -> (r: &str)
        ensures
            r@ == self.model().name,
    {
        self.name.as_str()
    }

    /// The cookie's value.
    pub fn value_str(&self) -> (r: &str)
        ensures
            r@ == self.model().value,
    {
        self.value.as_str()
    }

    /// An exact copy.
    pub fn duplicate(&self) -> (c: Cookie)
        ensures
            c.model() == self.model(),
    {
        Cookie {
            name: self.name.clone(),
            value: self.value.clone(),
            domain: match &self.domain {
                Some(d) => Some(d.clone()),
                None => None,
            },
            path: match &self.path {
                Some(p) => Some(p.clone()),
                None => None,
            },
            secure: self.secure,
            http_only: self.http_only,
            max_age_secs: self.max_age_secs,
            expires_epoch: self.expires_epoch,
        }
    }
}

/// The immediate-expiry entry that removes `c`: only the identity is kept,
/// the value is cleared, and the entry expires at once.
pub open spec fn removal_model(c: CookieModel) -> CookieModel {
    CookieModel {
        name: c.name,
        value: Seq::empty(),
        domain: c.domain,
        path: c.path,
        secure: false,
        http_only: false,
        max_age_secs: Some(0),
        expires_epoch: true,
    }
}

/// Exec mirror of `removal_model`.
pub fn removal_of(c: &Cookie) -> (r: Cookie)
    ensures
        r.model() == removal_model(c.model()),
{
    Cookie {
        name: c.name.clone(),
        value: String::new(),
        domain: match &c.domain {
            Some(d) => Some(d.clone()),
            None => None,
        },
        path: match &c.path {
            Some(p) => Some(p.clone()),
            None => None,
        },
        secure: false,
        http_only: false,
        max_age_secs: Some(0),
        expires_epoch: true,
    }
}

/// The wire text of a cookie: what the formatting collaborator renders
/// from its fields.  It depends on the fields alone.
pub uninterp spec fn wire_of(c: CookieModel) -> Seq<char>;

/// Relies on `cookie::Cookie`'s `Display` impl (`to_string`): it renders
/// `name=value` followed by the set attributes, and reads nothing but the
/// cookie's fields, so the text is a function of the fields alone.
#[verifier::external_body]
pub fn cookie_wire(c: &Cookie) -> (s: String)
    ensures
        s@ == wire_of(c.model()),
{
    let mut k = cookie::Cookie::new(c.name.clone(), c.value.clone());
    if let Some(d) = &c.domain { k.set_domain(d.clone()); }
    if let Some(p) = &c.path { k.set_path(p.clone()); }
    if c.secure { k.set_secure(true); }
    if c.http_only { k.set_http_only(true); }
    if let Some(a) = c.max_age_secs { k.set_max_age(cookie::time::Duration::seconds(a)); }
    if c.expires_epoch { k.set_expires(cookie::time::OffsetDateTime::UNIX_EPOCH); }
    k.to_string()
}

/// What the cookie parser reads out of a `Set-Cookie` text: a function of
/// the text alone.  An expiry date in the text is not carried over: the
/// delta engine never reads it.
pub uninterp spec fn parsed_cookie(s: Seq<char>) -> Option<CookieModel>;

/// Relies on `cookie::Cookie::parse_encoded`: it decodes the text's
/// name/value pair and attributes, reading nothing but the text.
#[verifier::external_body]
pub fn cookie_parse(s: &str) -> (r: Option<Cookie>)
    ensures
        r matches Some(c) ==> parsed_cookie(s@) == Some(c.model()),
        (r is Some) == (parsed_cookie(s@) is Some),
{
    let k = match cookie::Cookie::parse_encoded(s) { Ok(k) => k, Err(_) => return None };
    Some(Cookie {
        name: k.name().to_string(),
        value: k.value().to_string(),
        domain: k.domain().map(|d| d.to_string()),
        path: k.path().map(|p| p.to_string()),
        secure: k.secure().unwrap_or(false),
        http_only: k.http_only().unwrap_or(false),
        max_age_secs: k.max_age().map(|d| d.whole_seconds()),
        expires_epoch: false,
    })
}

/// One staged intent: add this cookie, or remove the cookie it identifies.
pub enum Staged {
    Add(Cookie),
    Remove(Cookie),
}

/// The mathematical image of a staged intent.
pub ghost enum StagedModel {
    Add(CookieModel),
    Remove(CookieModel),
}

impl Staged {
    /// The mathematical image of this intent.
    pub closed spec fn model(self) -> StagedModel {
        match self {
            Staged::Add(c) => StagedModel::Add(c.model()),
            Staged::Remove(c) => StagedModel::Remove(c.model()),
        }
    }

    /// The name the intent is about.
    pub fn key(&self) -> (r: &String)
        ensures
            r@ == staged_name(self.model()),
    {
        match self {
            Staged::Add(c) => &c.name,
            Staged::Remove(c) => &c.name,
        }
    }
}

/// The name a staged intent is about.
pub open spec fn staged_name(e: StagedModel) -> Seq<char> {
    match e {
        StagedModel::Add(c) => c.name,
        StagedModel::Remove(c) => c.name,
    }
}

/// The index of the first intent about `name`, or `-1` if none is.
pub open spec fn find_staged(s: Seq<StagedModel>, name: Seq<char>) -> int
    decreases s.len(),
{
    if s.len() == 0 {
        -1
    } else if staged_name(s[0]) == name {
        0
    } else {
        let r = find_staged(s.drop_first(), name);
        if r < 0 {
            -1
        } else {
            r + 1
        }
    }
}

/// What `find_staged` finds: the least index about `name`, or `-1` when no
/// index is about it.
pub proof fn lemma_find_staged(s: Seq<StagedModel>, name: Seq<char>)
    ensures
        find_staged(s, name) == -1 ==> forall|i: int|
            0 <= i < s.len() ==> staged_name(#[trigger] s[i]) != name,
        find_staged(s, name) != -1 ==> {
            &&& 0 <= find_staged(s, name) < s.len()
            &&& staged_name(s[find_staged(s, name)]) == name
            &&& forall|i: int|
                0 <= i < find_staged(s, name) ==> staged_name(#[trigger] s[i]) != name
        },
    decreases s.len(),
{
    if s.len() > 0 && staged_name(s[0]) != name {
        lemma_find_staged(s.drop_first(), name);
        assert(forall|i: int|
            1 <= i < s.len() ==> #[trigger] s[i] == s.drop_first()[i - 1]);
    }
}

/// `s` without its first intent about `name`, if any.
pub open spec fn delete_staged(s: Seq<StagedModel>, name: Seq<char>) -> Seq<StagedModel> {
    let i = find_staged(s, name);
    if i < 0 {
        s
    } else {
        s.remove(i)
    }
}

/// The staged intents after staging `e`: the earlier intent about the same
/// name, if any, is superseded, and `e` goes to the end of the order.
pub open spec fn stage_model(s: Seq<StagedModel>, e: StagedModel) -> Seq<StagedModel> {
    delete_staged(s, staged_name(e)).push(e)
}

/// The engine's state: baseline names, and the ordered staged intents.
pub struct CookieJar {
    originals: Vec<String>,
    staged: Vec<Staged>,
}

/// The mathematical image of the engine's state.
pub ghost struct JarModel {
    pub originals: Seq<Seq<char>>,
    pub staged: Seq<StagedModel>,
}

/// The state after marking `name` as a baseline cookie.
pub open spec fn jar_mark_original(j: JarModel, name: Seq<char>) -> JarModel {
    if j.originals.contains(name) {
        j
    } else {
        JarModel { originals: j.originals.push(name), staged: j.staged }
    }
}

/// The state after staging the addition of `c`.
pub open spec fn jar_add(j: JarModel, c: CookieModel) -> JarModel {
    JarModel { originals: j.originals, staged: stage_model(j.staged, StagedModel::Add(c)) }
}

/// The state after staging the removal of `c`: a baseline name is staged
/// for removal; any other name merely has its staged intent cancelled.
pub open spec fn jar_remove(j: JarModel, c: CookieModel) -> JarModel {
    if j.originals.contains(c.name) {
        JarModel {
            originals: j.originals,
            staged: stage_model(j.staged, StagedModel::Remove(c)),
        }
    } else {
        JarModel { originals: j.originals, staged: delete_staged(j.staged, c.name) }
    }
}

/// The models of a sequence of cookies, in order.
pub open spec fn cookie_models(s: Seq<Cookie>) -> Seq<CookieModel> {
    s.map_values(|c: Cookie| c.model())
}

/// The emitted entries: each staged addition in full, each staged removal
/// as its immediate-expiry entry, in staging order.  A baseline cookie
/// never staged contributes nothing.
pub open spec fn delta_model(j: JarModel) -> Seq<CookieModel> {
    j.staged.map_values(
        |e: StagedModel|
            match e {
                StagedModel::Add(c) => c,
                StagedModel::Remove(c) => removal_model(c),
            },
    )
}

impl CookieJar {
    /// The mathematical image of this engine state.
    pub closed spec fn model(self) -> JarModel {
        JarModel {
            originals: self.originals.deep_view(),
            staged: self.staged@.map_values(|x: Staged| x.model()),
        }
    }

    /// An engine with no baseline and nothing staged.
    pub fn new() -> (j: CookieJar)
        ensures
            j.model() == (JarModel { originals: Seq::empty(), staged: Seq::empty() }),
    {
        let j = CookieJar { originals: Vec::new(), staged: Vec::new() };
        proof {
            assert(j.model().originals =~= Seq::<Seq<char>>::empty());
            assert(j.model().staged =~= Seq::<StagedModel>::empty());
        }
        j
    }

    /// Whether `name` is marked as a baseline cookie.
    pub fn has_original(&self, name: &String) -> (b: bool)
        ensures
            b == self.model().originals.contains(name@),
    {
        let n = self.originals.len();
        let mut i: usize = 0;
        while i < n
            invariant
                n == self.originals.len(),
                i <= n,
                forall|j: int| 0 <= j < i ==> self.originals.deep_view()[j] != name@,
            decreases n - i,
        {
            assert(self.originals.deep_view()[i as int] == self.originals@[i as int]@);
            if self.originals[i] == *name {
                assert(self.model().originals[i as int] == name@);
                return true;
            }
            i += 1;
        }
        false
    }

    /// Take out the staged intent about `name`, if one is there.
    fn unstage(&mut self, name: &String)
        ensures
            final(self).model() == (JarModel {
                originals: old(self).model().originals,
                staged: delete_staged(old(self).model().staged, name@),
            }),
    {
        let ghost s0 = self.model().staged;
        let n = self.staged.len();
        let mut i: usize = 0;
        while i < n
            invariant
                n == self.staged.len(),
                s0 == self.model().staged,
                s0 == old(self).model().staged,
                self.model().originals == old(self).model().originals,
                i <= n,
                forall|j: int| 0 <= j < i ==> staged_name(#[trigger] s0[j]) != name@,
            decreases n - i,
        {
            assert(s0[i as int] == self.staged@[i as int].model());
            if *self.staged[i].key() == *name {
                let _ = self.staged.remove(i);
                proof {
                    lemma_find_staged(s0, name@);
                    let f = find_staged(s0, name@);
                    assert(staged_name(s0[i as int]) == name@);
                    if f == -1 {
                        assert(staged_name(s0[i as int]) != name@);
                    } else if f < i as int {
                        assert(staged_name(s0[f]) != name@);
                        assert(staged_name(s0[f]) == name@);
                    } else if f > i as int {
                        assert(staged_name(s0[i as int]) != name@);
                    }
                    assert(f == i as int);
                    assert(self.model().staged =~= s0.remove(i as int));
                    assert(delete_staged(s0, name@) =~= s0.remove(i as int));
                }
                return ;
            }
            i += 1;
        }
        proof {
            lemma_find_staged(s0, name@);
            let f = find_staged(s0, name@);
            if f != -1 {
                assert(staged_name(s0[f]) == name@);
                assert(staged_name(s0[f]) != name@);
            }
            assert(delete_staged(s0, name@) == s0);
        }
    }

    /// Mark `name` as a baseline cookie.
    pub fn add_original_name(&mut self, name: &String)
        ensures
            final(self).model() == jar_mark_original(old(self).model(), name@),
    {
        let present = self.has_original(name);
        if !present {
            self.originals.push(name.clone());
            proof {
                assert(self.model().originals =~= old(self).model().originals.push(name@));
            }
        }
    }

    /// Stage the addition of `c`, superseding any earlier intent about its
    /// name.
    pub fn add(&mut self, c: Cookie)
        ensures
            final(self).model() == jar_add(old(self).model(), c.model()),
    {
        let name = c.name.clone();
        self.unstage(&name);
        self.staged.push(Staged::Add(c));
        proof {
            assert(self.model().staged =~= stage_model(
                old(self).model().staged,
                StagedModel::Add(c.model()),
            ));
        }
    }

    /// Stage the removal of `c`: if its name is a baseline cookie an
    /// immediate-expiry entry will be emitted; otherwise any staged intent
    /// about the name is merely cancelled.
    pub fn remove(&mut self, c: Cookie)
        ensures
            final(self).model() == jar_remove(old(self).model(), c.model()),
    {
        let name = c.name.clone();
        let original = self.has_original(&name);
        self.unstage(&name);
        if original {
            self.staged.push(Staged::Remove(c));
            proof {
                assert(self.model().staged =~= stage_model(
                    old(self).model().staged,
                    StagedModel::Remove(c.model()),
                ));
            }
        }
    }

    /// The entries to emit, in staging order.
    pub fn delta(&self) -> (r: Vec<Cookie>)
        ensures
            cookie_models(r@) == delta_model(self.model()),
    {
        let n = self.staged.len();
        let mut out: Vec<Cookie> = Vec::new();
        let mut i: usize = 0;
        while i < n
            invariant
                n == self.staged.len(),
                i <= n,
                cookie_models(out@) =~= delta_model(self.model()).subrange(0, i as int),
            decreases n - i,
        {
            assert(self.model().staged[i as int] == self.staged@[i as int].model());
            let cur = &self.staged[i];
            assert(*cur == self.staged@[i as int]);
            let next = match cur {
                Staged::Add(c) => c.duplicate(),
                Staged::Remove(c) => removal_of(c),
            };
            assert(next.model() == delta_model(self.model())[i as int]);
            let ghost prev = out@;
            out.push(next);
            proof {
                let dm = delta_model(self.model());
                assert(cookie_models(prev).len() == prev.len());
                assert(cookie_models(prev) == dm.subrange(0, i as int));
                assert(prev.len() == i as int);
                assert(out@ == prev.push(next));
                assert forall|j: int| 0 <= j < out@.len() implies #[trigger] cookie_models(
                    out@,
                )[j] == dm.subrange(0, i as int + 1)[j] by {
                    if j < i as int {
                        assert(cookie_models(prev)[j] == dm.subrange(0, i as int)[j]);
                        assert(out@[j] == prev[j]);
                    } else {
                        assert(out@[j] == next);
                    }
                }
                assert(cookie_models(out@) =~= dm.subrange(0, i as int + 1));
            }
            i += 1;
        }
        proof {
            assert(delta_model(self.model()).subrange(0, n as int) =~= delta_model(self.model()));
        }
        out
    }
}

} // verus!
