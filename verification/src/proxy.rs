//! Proxy definitions and the list operations the configuration API performs
//! on them.
use crate::types::DomainType;
use vstd::pervasive::VecAdditionalExecFns;
use vstd::prelude::*;

verus! {

/// UI switches of an HTTP proxy.
#[derive(Debug, Clone, Copy, PartialEq, Eq, Structural)]
pub struct HttpSwitch {
    pub domain: DomainType,
    pub auth: bool,
}

impl Default for HttpSwitch {
    fn default() -> (r: Self)
        ensures
            r == (HttpSwitch { domain: DomainType::Sub, auth: false }),
    {
        HttpSwitch { domain: DomainType::Sub, auth: false }
    }
}

/// Fields every proxy carries.
pub struct ProxyCommon {
    pub id: String,
    pub name: String,
    pub enable: bool,
    pub local_ip: String,
    pub local_port: u16,
}

/// An HTTP proxy.
pub struct HttpProxy {
    pub common: ProxyCommon,
    pub subdomain: String,
    pub custom_domains: Vec<String>,
    pub locations: Vec<String>,
    pub http_user: String,
    pub http_password: String,
    pub switch: HttpSwitch,
}

/// An HTTPS proxy.
pub struct HttpsProxy {
    pub common: ProxyCommon,
}

/// A configured proxy of either kind.
pub enum Proxy {
    Http(HttpProxy),
    Https(HttpsProxy),
}

/// The export form of the common fields: what the client configuration file
/// carries (no id, no enable flag).
pub struct ProxyCommonExport {
    pub name: String,
    pub local_ip: String,
    pub local_port: u16,
}

/// The export form of an HTTP proxy.
pub struct HttpProxyExport {
    pub common: ProxyCommonExport,
    pub subdomain: String,
    pub custom_domains: Vec<String>,
    pub locations: Vec<String>,
    pub http_user: String,
    pub http_password: String,
}

/// The export form of an HTTPS proxy.
pub struct HttpsProxyExport {
    pub common: ProxyCommonExport,
}

/// The export form of a proxy.
pub enum ProxyExport {
    Http(HttpProxyExport),
    Https(HttpsProxyExport),
}

/// The common fields of a proxy, whichever kind it is.
pub open spec fn spec_common(p: Proxy) -> ProxyCommon {
    match p {
        Proxy::Http(h) => h.common,
        Proxy::Https(h) => h.common,
    }
}

/// The same proxy with its common fields replaced.
pub open spec fn spec_with_common(p: Proxy, c: ProxyCommon) -> Proxy {
    match p {
        Proxy::Http(h) => Proxy::Http(HttpProxy { common: c, ..h }),
        Proxy::Https(_) => Proxy::Https(HttpsProxy { common: c }),
    }
}

impl Proxy {
    /// Read access to the fields shared by both kinds.
    pub fn common(&self) -> (r: &ProxyCommon)
        ensures
            *r == spec_common(*self),
    {
        match self {
            Proxy::Http(p) => &p.common,
            Proxy::Https(p) => &p.common,
        }
    }

    /// Write access to the fields shared by both kinds.
    pub fn common_mut(&mut self) -> (r: &mut ProxyCommon)
        ensures
            *r == spec_common(*old(self)),
            *final(self) == spec_with_common(*old(self), *final(r)),
    {
        match self {
            Proxy::Http(p) => &mut p.common,
            Proxy::Https(p) => &mut p.common,
        }
    }
}

fn string_eq(a: &String, b: &String) -> (r: bool)
    ensures
        r == (a@ == b@),
{
    a.eq(b)
}

fn clone_string(s: &String) -> (r: String)
    ensures
        r == *s,
{
    s.clone()
}

fn clone_string_vec(v: &Vec<String>) -> (r: Vec<String>)
    ensures
        r@ == v@,
{
    let mut out: Vec<String> = Vec::new();
    let n = v.len();
    let mut i: usize = 0;
    while i < n
        invariant
            0 <= i <= n,
            n == v@.len(),
            out@ =~= v@.take(i as int),
        decreases n - i,
    {
        out.push(clone_string(&v[i]));
        i += 1;
    }
    proof {
        assert(out@ =~= v@);
    }
    out
}

fn clone_common(c: &ProxyCommon) -> (r: ProxyCommon)
    ensures
        r == *c,
{
    ProxyCommon {
        id: clone_string(&c.id),
        name: clone_string(&c.name),
        enable: c.enable,
        local_ip: clone_string(&c.local_ip),
        local_port: c.local_port,
    }
}

/// Two proxies hold the same data, compared through the views of their
/// vector fields (a freshly allocated vector with equal contents counts as
/// equal).
pub open spec fn proxy_eq(a: Proxy, b: Proxy) -> bool {
    match (a, b) {
        (Proxy::Http(x), Proxy::Http(y)) => {
            &&& x.common == y.common
            &&& x.subdomain == y.subdomain
            &&& x.custom_domains@ == y.custom_domains@
            &&& x.locations@ == y.locations@
            &&& x.http_user == y.http_user
            &&& x.http_password == y.http_password
            &&& x.switch == y.switch
        },
        (Proxy::Https(x), Proxy::Https(y)) => x.common == y.common,
        _ => false,
    }
}

/// A deep copy that the contracts can see through: the result carries the
/// same data as the original.
pub fn clone_proxy(p: &Proxy) -> (r: Proxy)
    ensures
        proxy_eq(r, *p),
{
    match p {
        Proxy::Http(h) => Proxy::Http(
            HttpProxy {
                common: clone_common(&h.common),
                subdomain: clone_string(&h.subdomain),
                custom_domains: clone_string_vec(&h.custom_domains),
                locations: clone_string_vec(&h.locations),
                http_user: clone_string(&h.http_user),
                http_password: clone_string(&h.http_password),
                switch: h.switch,
            },
        ),
        Proxy::Https(h) => Proxy::Https(HttpsProxy { common: clone_common(&h.common) }),
    }
}

/// The export carries exactly the proxy's data: the common fields without
/// id and enable flag, plus the kind-specific fields, kind preserved.
pub open spec fn export_matches(e: ProxyExport, p: Proxy) -> bool {
    match (p, e) {
        (Proxy::Http(h), ProxyExport::Http(x)) => {
            &&& x.common.name == h.common.name
            &&& x.common.local_ip == h.common.local_ip
            &&& x.common.local_port == h.common.local_port
            &&& x.subdomain == h.subdomain
            &&& x.custom_domains@ == h.custom_domains@
            &&& x.locations@ == h.locations@
            &&& x.http_user == h.http_user
            &&& x.http_password == h.http_password
        },
        (Proxy::Https(h), ProxyExport::Https(x)) => {
            &&& x.common.name == h.common.name
            &&& x.common.local_ip == h.common.local_ip
            &&& x.common.local_port == h.common.local_port
        },
        _ => false,
    }
}

/// Builds the export form of a proxy.
pub fn to_proxy_export(p: &Proxy) -> (r: Option<ProxyExport>)
    ensures
        r is Some,
        export_matches(r->Some_0, *p),
{
    match p {
        Proxy::Http(h) => Option::Some(
            ProxyExport::Http(
                HttpProxyExport {
                    common: ProxyCommonExport {
                        name: clone_string(&h.common.name),
                        local_ip: clone_string(&h.common.local_ip),
                        local_port: h.common.local_port,
                    },
                    subdomain: clone_string(&h.subdomain),
                    custom_domains: clone_string_vec(&h.custom_domains),
                    locations: clone_string_vec(&h.locations),
                    http_user: clone_string(&h.http_user),
                    http_password: clone_string(&h.http_password),
                },
            ),
        ),
        Proxy::Https(h) => Option::Some(
            ProxyExport::Https(
                HttpsProxyExport {
                    common: ProxyCommonExport {
                        name: clone_string(&h.common.name),
                        local_ip: clone_string(&h.common.local_ip),
                        local_port: h.common.local_port,
                    },
                },
            ),
        ),
    }
}

/// Every character is ASCII whitespace (or there are none): the ids treated
/// as "not really given".
pub open spec fn spec_is_blank(s: Seq<char>) -> bool {
    forall|i: int| 0 <= i < s.len() ==> (#[trigger] s[i] == ' ' || (9 <= s[i] as int <= 13))
}

fn is_blank(s: &str) -> (r: bool)
    ensures
        r == spec_is_blank(s@),
{
    let n = s.unicode_len();
    let mut i: usize = 0;
    while i < n
        invariant
            0 <= i <= n,
            n == s@.len(),
            forall|j: int| 0 <= j < i ==> (#[trigger] s@[j] == ' ' || (9 <= s@[j] as int <= 13)),
        decreases n - i,
    {
        let c = s.get_char(i);
        if !(c == ' ' || ((c as u32) >= 9 && (c as u32) <= 13)) {
            return false;
        }
        i += 1;
    }
    true
}

/// Relies on `uuid::Uuid::new_v4` and its `Display` impl: a freshly drawn
/// random UUID rendered in the hyphenated form, which is 36 characters.
#[verifier::external_body]
fn fresh_uuid_string() -> (r: String)
    ensures
        r@.len() == 36,
{
    uuid::Uuid::new_v4().to_string()
}

/// The id a stored proxy keeps: the given one where it holds anything
/// beyond whitespace, else a freshly generated 36-character UUID.
pub fn default_proxy_id(given: Option<String>) -> (r: String)
    ensures
        match given {
            Option::Some(s) => if !spec_is_blank(s@) {
                r == s
            } else {
                r@.len() == 36
            },
            Option::None => r@.len() == 36,
        },
{
    match given {
        Option::Some(s) => {
            if !is_blank(s.as_str()) {
                s
            } else {
                fresh_uuid_string()
            }
        },
        Option::None => fresh_uuid_string(),
    }
}

/// The first position holding a proxy with this id.
pub open spec fn spec_first_with_id(s: Seq<Proxy>, id: Seq<char>) -> Option<int>
    decreases s.len(),
{
    if s.len() == 0 {
        Option::None
    } else if spec_common(s[0]).id@ == id {
        Option::Some(0)
    } else {
        match spec_first_with_id(s.skip(1), id) {
            Option::Some(i) => Option::Some(i + 1),
            Option::None => Option::None,
        }
    }
}

proof fn lemma_first_with_id_is(s: Seq<Proxy>, id: Seq<char>, k: int)
    requires
        0 <= k <= s.len(),
        forall|j: int| 0 <= j < k ==> spec_common(#[trigger] s[j]).id@ != id,
        k < s.len() ==> spec_common(s[k]).id@ == id,
    ensures
        k < s.len() ==> spec_first_with_id(s, id) == Option::Some(k),
        k == s.len() ==> spec_first_with_id(s, id) is None,
    decreases s.len(),
{
    if s.len() == 0 {
    } else if spec_common(s[0]).id@ == id {
        assert(k == 0);
    } else {
        lemma_first_with_id_is(s.skip(1), id, k - 1);
    }
}

/// Inserts a proxy or replaces the first existing one with the same id, as
/// saving from the UI does.
pub fn save_proxy(proxies: &mut Vec<Proxy>, proxy: Proxy) -> (r: ())
    ensures
        match spec_first_with_id(old(proxies)@, spec_common(proxy).id@) {
            Option::Some(i) => final(proxies)@ == old(proxies)@.update(i, proxy),
            Option::None => final(proxies)@ == old(proxies)@.push(proxy),
        },
{
    let n = proxies.len();
    let mut i: usize = 0;
    while i < n
        invariant
            0 <= i <= n,
            n == proxies@.len(),
            *proxies == *old(proxies),
            forall|j: int|
                0 <= j < i ==> spec_common(#[trigger] proxies@[j]).id@ != spec_common(proxy).id@,
        decreases n - i,
    {
        let same = {
            let a = proxies[i].common();
            let b = proxy.common();
            string_eq(&a.id, &b.id)
        };
        if same {
            proof {
                lemma_first_with_id_is(proxies@, spec_common(proxy).id@, i as int);
            }
            proxies.set(i, proxy);
            return ;
        }
        i += 1;
    }
    proof {
        lemma_first_with_id_is(proxies@, spec_common(proxy).id@, n as int);
    }
    proxies.push(proxy);
}

/// Drops every proxy with this id; reports whether any was dropped.
pub fn remove_proxy(proxies: &mut Vec<Proxy>, id: &str) -> (removed: bool)
    ensures
        final(proxies)@ == old(proxies)@.filter(|p: Proxy| spec_common(p).id@ != id@),
        removed <==> exists|k: int|
            0 <= k < old(proxies)@.len() && spec_common(#[trigger] old(proxies)@[k]).id@ == id@,
{
    let ghost pred = |p: Proxy| spec_common(p).id@ != id@;
    let ghost orig = proxies@;
    let id_string = id.to_owned();
    let mut found = false;
    let mut i: usize = 0;
    let ghost mut k: int = 0;
    while i < proxies.len()
        invariant
            0 <= k <= orig.len(),
            pred == (|p: Proxy| spec_common(p).id@ != id@),
            id_string@ == id@,
            proxies@ =~= orig.take(k).filter(pred) + orig.skip(k),
            i == orig.take(k).filter(pred).len(),
            found <==> exists|j: int|
                0 <= j < k && spec_common(#[trigger] orig[j]).id@ == id@,
        decreases proxies@.len() - i,
    {
        proof {
            assert(orig.skip(k).len() > 0);
            assert(proxies@[i as int] == orig.skip(k)[0]);
            assert(orig.skip(k)[0] == orig[k]);
            assert(orig.take(k + 1).drop_last() =~= orig.take(k));
            assert(orig.take(k + 1).last() == orig[k]);
        }
        let matches_id = {
            let c = proxies[i].common();
            string_eq(&c.id, &id_string)
        };
        if matches_id {
            proof {
                reveal_with_fuel(Seq::filter, 2);
                assert(spec_common(orig[k]).id@ == id@);
                assert(!pred(orig[k]));
                assert(orig.take(k + 1).filter(pred) == orig.take(k).filter(pred));
            }
            proxies.remove(i);
            found = true;
            proof {
                assert(proxies@ =~= orig.take(k + 1).filter(pred) + orig.skip(k + 1));
            }
        } else {
            proof {
                reveal_with_fuel(Seq::filter, 2);
                assert(spec_common(orig[k]).id@ != id@);
                assert(pred(orig[k]));
                assert(orig.take(k + 1).filter(pred) == orig.take(k).filter(pred).push(
                    orig[k],
                ));
            }
            i += 1;
            proof {
                assert(proxies@ =~= orig.take(k + 1).filter(pred) + orig.skip(k + 1));
            }
        }
        proof {
            k = k + 1;
        }
    }
    proof {
        reveal_with_fuel(Seq::filter, 2);
        assert(k == orig.len());
        assert(orig.take(k) =~= orig);
        assert(orig.skip(k) =~= Seq::<Proxy>::empty());
        assert(proxies@ =~= orig.filter(pred));
    }
    found
}

/// The first position holding a proxy with this name.
pub open spec fn spec_first_with_name(s: Seq<Proxy>, name: Seq<char>) -> Option<int>
    decreases s.len(),
{
    if s.len() == 0 {
        Option::None
    } else if spec_common(s[0]).name@ == name {
        Option::Some(0)
    } else {
        match spec_first_with_name(s.skip(1), name) {
            Option::Some(i) => Option::Some(i + 1),
            Option::None => Option::None,
        }
    }
}

proof fn lemma_first_with_name_is(s: Seq<Proxy>, name: Seq<char>, k: int)
    requires
        0 <= k <= s.len(),
        forall|j: int| 0 <= j < k ==> spec_common(#[trigger] s[j]).name@ != name,
        k < s.len() ==> spec_common(s[k]).name@ == name,
    ensures
        k < s.len() ==> spec_first_with_name(s, name) == Option::Some(k),
        k == s.len() ==> spec_first_with_name(s, name) is None,
    decreases s.len(),
{
    if s.len() == 0 {
    } else if spec_common(s[0]).name@ == name {
        assert(k == 0);
    } else {
        lemma_first_with_name_is(s.skip(1), name, k - 1);
    }
}

/// A copy of the first proxy with this name, if one exists.
pub fn get_proxy(proxies: &Vec<Proxy>, name: &str) -> (r: Option<Proxy>)
    ensures
        match spec_first_with_name(proxies@, name@) {
            Option::Some(i) => r is Some && proxy_eq(r->Some_0, proxies@[i]),
            Option::None => r is None,
        },
{
    let n = proxies.len();
    let mut i: usize = 0;
    while i < n
        invariant
            0 <= i <= n,
            n == proxies@.len(),
            forall|j: int| 0 <= j < i ==> spec_common(#[trigger] proxies@[j]).name@ != name@,
        decreases n - i,
    {
        let matches_name = {
            let c = proxies[i].common();
            string_eq(&c.name, &name.to_owned())
        };
        if matches_name {
            proof {
                lemma_first_with_name_is(proxies@, name@, i as int);
            }
            return Option::Some(clone_proxy(&proxies[i]));
        }
        i += 1;
    }
    proof {
        lemma_first_with_name_is(proxies@, name@, n as int);
    }
    Option::None
}

} // verus!
