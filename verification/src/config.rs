//! Configuration of the proxy: which hosts the guest may reach, and which secrets
//! go to which of them.

use crate::guest::PortMapping;
use crate::string_map::{value_of, StringMap};
use crate::text::{chars, str_eq};
use vstd::prelude::*;

verus! {

/// A secret that the proxy injects into HTTP requests.
#[derive(Debug)]
pub struct SecretConfig {
    /// Literal secret value held on the host.
    pub value: String,
    /// Domain patterns where this secret may be sent (e.g., "api.openai.com").
    /// The proxy only substitutes the placeholder on requests to these hosts.
    pub hosts: Vec<String>,
}

/// Network access policy.
#[derive(Debug)]
pub struct NetworkConfig {
    /// Allowed domain patterns. Empty = allow all.
    /// Supports wildcards: "*.openai.com", "registry.npmjs.org".
    pub allow: Vec<String>,
}

/// Configuration for the proxy engine.
#[derive(Debug)]
pub struct ProxyConfig {
    /// Secrets to inject. Key is the env var name visible to the guest.
    /// The guest gets a random placeholder token; the proxy substitutes
    /// the real value only when the request targets an allowed host.
    pub secrets: StringMap<SecretConfig>,
    /// Network access rules.
    pub network: NetworkConfig,
    /// Host ports that the guest may reach.
    pub expose_host: Vec<PortMapping>,
}

/// Whether a domain falls under a pattern: "*." stands for one or more labels to
/// the left, and any other pattern for itself alone.
pub open spec fn pattern_covers(pattern: Seq<char>, domain: Seq<char>) -> bool {
    if "*."@.is_prefix_of(pattern) {
        pattern.skip(1).is_suffix_of(domain)
    } else {
        domain == pattern
    }
}

/// Whether some pattern covers the domain.
pub open spec fn some_pattern_covers(patterns: Seq<String>, domain: Seq<char>) -> bool {
    exists|i: int| 0 <= i < patterns.len() && pattern_covers((#[trigger] patterns[i])@, domain)
}

/// The placeholders to replace in requests to `domain`, each with what takes its
/// place, in the order of the secrets.
pub open spec fn substitutions(
    secrets: Seq<(Seq<char>, SecretConfig)>,
    placeholders: Seq<(Seq<char>, String)>,
    domain: Seq<char>,
) -> Seq<(Seq<char>, Seq<char>)>
    decreases secrets.len(),
{
    if secrets.len() == 0 {
        Seq::empty()
    } else {
        let before = substitutions(secrets.drop_last(), placeholders, domain);
        let (name, secret) = secrets.last();
        match value_of(placeholders, name) {
            Some(placeholder) => if some_pattern_covers(secret.hosts@, domain) {
                before.push((placeholder@, secret.value@))
            } else {
                before
            },
            None => before,
        }
    }
}

/// The texts of pairs of strings.
pub open spec fn pair_texts(v: Seq<(String, String)>) -> Seq<(Seq<char>, Seq<char>)> {
    Seq::new(v.len(), |i: int| (v[i].0@, v[i].1@))
}

/// Whether requests to `domain` get `value` in place of `placeholder` because of
/// the secret `entry`.
pub open spec fn grants(
    entry: (Seq<char>, SecretConfig),
    placeholders: Seq<(Seq<char>, String)>,
    domain: Seq<char>,
    placeholder: Seq<char>,
    value: Seq<char>,
) -> bool {
    &&& some_pattern_covers(entry.1.hosts@, domain)
    &&& entry.1.value@ == value
    &&& value_of(placeholders, entry.0) matches Some(p) && p@ == placeholder
}

/// A real secret value is only ever sent to a domain that one of its own host
/// patterns covers, and only in place of its own placeholder.
pub proof fn law_secrets_stay_with_their_hosts(
    secrets: Seq<(Seq<char>, SecretConfig)>,
    placeholders: Seq<(Seq<char>, String)>,
    domain: Seq<char>,
    placeholder: Seq<char>,
    value: Seq<char>,
)
    ensures
        substitutions(secrets, placeholders, domain).contains((placeholder, value)) <==> exists|
            i: int,
        |
            0 <= i < secrets.len() && #[trigger] grants(
                secrets[i],
                placeholders,
                domain,
                placeholder,
                value,
            ),
    decreases secrets.len(),
{
    let all = substitutions(secrets, placeholders, domain);
    if secrets.len() > 0 {
        let rest = secrets.drop_last();
        let before = substitutions(rest, placeholders, domain);
        let pair = (placeholder, value);
        law_secrets_stay_with_their_hosts(rest, placeholders, domain, placeholder, value);
        let n = rest.len() as int;
        let last = secrets[n];
        if all.contains(pair) {
            let k = choose|k: int| 0 <= k < all.len() && all[k] == pair;
            if k < before.len() {
                assert(before[k] == pair);
                let i = choose|i: int|
                    0 <= i < rest.len() && #[trigger] grants(
                        rest[i],
                        placeholders,
                        domain,
                        placeholder,
                        value,
                    );
                assert(grants(secrets[i], placeholders, domain, placeholder, value));
            } else {
                assert(grants(secrets[n], placeholders, domain, placeholder, value));
            }
        }
        if exists|i: int|
            0 <= i < secrets.len() && #[trigger] grants(
                secrets[i],
                placeholders,
                domain,
                placeholder,
                value,
            ) {
            let i = choose|i: int|
                0 <= i < secrets.len() && #[trigger] grants(
                    secrets[i],
                    placeholders,
                    domain,
                    placeholder,
                    value,
                );
            if i < n {
                assert(grants(rest[i], placeholders, domain, placeholder, value));
                let k = choose|k: int| 0 <= k < before.len() && before[k] == pair;
                assert(all[k] == pair);
            } else {
                assert(all[all.len() - 1] == pair);
            }
        }
    }
}

/// A pattern with a wildcard covers the domains below its base, and not the base
/// itself.
pub proof fn law_wildcard(base: Seq<char>, label: Seq<char>)
    ensures
        pattern_covers("*."@ + base, label + "."@ + base),
        !pattern_covers("*."@ + base, base),
{
    reveal_strlit("*.");
    reveal_strlit(".");
    let pattern = "*."@ + base;
    let domain = label + "."@ + base;
    assert("*."@ =~= pattern.take(2));
    assert(pattern.skip(1) =~= "."@ + base);
    assert(domain.skip(label.len() as int) =~= "."@ + base);
    assert(domain.subrange((domain.len() - pattern.skip(1).len()) as int, domain.len() as int)
        =~= pattern.skip(1));
}

/// Simple wildcard domain matching.
/// "*.example.com" matches "api.example.com" but not "example.com".
/// "example.com" matches exactly "example.com".
pub fn domain_matches(pattern: &str, domain: &str) -> (r: bool)
    ensures
        r == pattern_covers(pattern@, domain@),
{
    let p = chars(pattern);
    let d = chars(domain);
    proof {
        reveal_strlit("*.");
    }
    if p.len() >= 2 && p[0] == '*' && p[1] == '.' {
        assert("*."@ =~= pattern@.take(2));
        let n = p.len() - 1;
        if d.len() < n {
            return false;
        }
        let start = d.len() - n;
        let mut i: usize = 0;
        while i < n
            invariant
                p@ == pattern@,
                d@ == domain@,
                n == p@.len() - 1,
                start + n == d.len(),
                i <= n,
                forall|j: int| 1 <= j <= i ==> d@[start + j - 1] == #[trigger] p@[j],
            decreases n - i,
        {
            if d[start + i] != p[i + 1] {
                assert(pattern@.skip(1)[i as int] == p@[i + 1]);
                assert(domain@.subrange(start as int, domain@.len() as int)[i as int] == d@[start
                    + i]);
                return false;
            }
            i += 1;
        }
        let ghost end = domain@.subrange(start as int, domain@.len() as int);
        assert forall|j: int| 0 <= j < n implies end[j] == pattern@.skip(1)[j] by {
            assert(d@[start + (j + 1) - 1] == p@[j + 1]);
        }
        assert(end =~= pattern@.skip(1));
        true
    } else {
        assert(!"*."@.is_prefix_of(pattern@)) by {
            if "*."@.is_prefix_of(pattern@) {
                assert(pattern@.take(2)[0] == '*' && pattern@.take(2)[1] == '.');
            }
        }
        str_eq(pattern, domain)
    }
}

fn any_matches(patterns: &Vec<String>, domain: &str) -> (r: bool)
    ensures
        r == some_pattern_covers(patterns@, domain@),
{
    let mut i: usize = 0;
    while i < patterns.len()
        invariant
            i <= patterns@.len(),
            forall|j: int| 0 <= j < i ==> !pattern_covers((#[trigger] patterns@[j])@, domain@),
        decreases patterns@.len() - i,
    {
        if domain_matches(patterns[i].as_str(), domain) {
            return true;
        }
        i += 1;
    }
    false
}

impl Default for NetworkConfig {
    fn default() -> (r: Self)
        ensures
            r.allow@.len() == 0,
    {
        NetworkConfig { allow: Vec::new() }
    }
}

impl Default for ProxyConfig {
    fn default() -> (r: Self)
        ensures
            r.secrets@.len() == 0,
            r.network.allow@.len() == 0,
            r.expose_host@.len() == 0,
    {
        ProxyConfig {
            secrets: StringMap::new(),
            network: NetworkConfig { allow: Vec::new() },
            expose_host: Vec::new(),
        }
    }
}

impl ProxyConfig {
    /// Check if a domain is allowed by the network policy.
    /// Empty allowlist means all domains are allowed.
    pub fn is_domain_allowed(&self, domain: &str) -> (r: bool)
        ensures
            r == (self.network.allow@.len() == 0 || some_pattern_covers(
                self.network.allow@,
                domain@,
            )),
    {
        if self.network.allow.len() == 0 {
            return true;
        }
        any_matches(&self.network.allow, domain)
    }

    /// Get all secret placeholder -> real value mappings for a given domain.
    pub fn secrets_for_domain(&self, domain: &str, placeholders: &StringMap<String>) -> (r: Vec<
        (String, String),
    >)
        ensures
            pair_texts(r@) == substitutions(self.secrets@, placeholders@, domain@),
    {
        let mut result: Vec<(String, String)> = Vec::new();
        let mut i: usize = 0;
        assert(self.secrets@.take(0) =~= Seq::empty());
        assert(pair_texts(result@) =~= Seq::empty());
        while i < self.secrets.len()
            invariant
                i <= self.secrets@.len(),
                pair_texts(result@) == substitutions(
                    self.secrets@.take(i as int),
                    placeholders@,
                    domain@,
                ),
            decreases self.secrets@.len() - i,
        {
            let ghost before = result@;
            let secret = self.secrets.value_at(i);
            if any_matches(&secret.hosts, domain) {
                if let Some(placeholder) = placeholders.get(self.secrets.key_at(i).as_str()) {
                    result.push((placeholder.clone(), secret.value.clone()));
                    assert(pair_texts(result@) =~= pair_texts(before).push(
                        (placeholder@, secret.value@),
                    ));
                }
            }
            i += 1;
            assert(self.secrets@.take(i as int).drop_last() =~= self.secrets@.take(i - 1));
        }
        assert(self.secrets@.take(i as int) =~= self.secrets@);
        result
    }
}

/// A pattern covers exactly what it says: one that begins with "*." the domains that end
/// with the rest of it after one more "." and label, and any other pattern itself alone.
pub proof fn law_patterns_cover_what_they_say(base: Seq<char>, pattern: Seq<char>, domain: Seq<char>)
    ensures
        pattern_covers("*."@ + base, domain) <==> exists|label: Seq<char>|
            domain == #[trigger] (label + "."@) + base,
        pattern.len() < 2 || pattern[0] != '*' || pattern[1] != '.' ==> (pattern_covers(
            pattern,
            domain,
        ) <==> domain == pattern),
{
    reveal_strlit("*.");
    reveal_strlit(".");
    let p = "*."@ + base;
    assert("*."@ =~= p.take(2));
    assert(p.skip(1) =~= "."@ + base);
    let end = "."@ + base;
    if pattern_covers(p, domain) {
        let n = domain.len() - end.len();
        let label = domain.take(n);
        assert(domain.subrange(n, domain.len() as int) =~= end);
        assert forall|i: int| n <= i < domain.len() implies domain[i] == end[i - n] by {
            assert(domain.subrange(n, domain.len() as int)[i - n] == domain[i]);
        }
        assert(domain =~= (label + "."@) + base);
    }
    if exists|label: Seq<char>| domain == #[trigger] (label + "."@) + base {
        let label = choose|label: Seq<char>| domain == #[trigger] (label + "."@) + base;
        assert(domain =~= label + "."@ + base);
        law_wildcard(base, label);
    }
    if "*."@.is_prefix_of(pattern) {
        assert(pattern.take(2)[0] == '*' && pattern.take(2)[1] == '.');
    }
}

/// A list of patterns covers what one of them covers, and an empty one nothing.
pub proof fn law_lists_cover_what_a_pattern_covers(patterns: Seq<String>, domain: Seq<char>, i: int)
    ensures
        0 <= i < patterns.len() && pattern_covers(patterns[i]@, domain) ==> some_pattern_covers(
            patterns,
            domain,
        ),
        some_pattern_covers(patterns, domain) ==> exists|k: int|
            0 <= k < patterns.len() && pattern_covers((#[trigger] patterns[k])@, domain),
{
}

/// Requests to a domain get the value of a secret in place of its placeholder exactly
/// where one of the secret's own hosts covers the domain and the guest has the
/// placeholder.
pub proof fn law_secrets_reach_their_hosts(
    secrets: Seq<(Seq<char>, SecretConfig)>,
    placeholders: Seq<(Seq<char>, String)>,
    domain: Seq<char>,
    k: int,
)
    requires
        0 <= k < secrets.len(),
    ensures
        (exists|j: int|
            0 <= j < secrets[k].1.hosts@.len() && pattern_covers(
                (#[trigger] secrets[k].1.hosts@[j])@,
                domain,
            )) ==> (value_of(placeholders, secrets[k].0) matches Some(p) ==> substitutions(
            secrets,
            placeholders,
            domain,
        ).contains((p@, secrets[k].1.value@))),
        forall|placeholder: Seq<char>, value: Seq<char>| #[trigger]
            substitutions(secrets, placeholders, domain).contains((placeholder, value)) ==> exists|
                i: int,
                j: int,
            |
                {
                    &&& 0 <= i < secrets.len()
                    &&& 0 <= j < secrets[i].1.hosts@.len()
                    &&& pattern_covers((#[trigger] secrets[i].1.hosts@[j])@, domain)
                    &&& secrets[i].1.value@ == value
                    &&& value_of(placeholders, secrets[i].0) matches Some(p) && p@ == placeholder
                },
        substitutions(secrets, placeholders, domain).len() <= secrets.len(),
{
    if let Some(p) = value_of(placeholders, secrets[k].0) {
        let value = secrets[k].1.value@;
        law_secrets_stay_with_their_hosts(secrets, placeholders, domain, p@, value);
        if some_pattern_covers(secrets[k].1.hosts@, domain) {
            assert(grants(secrets[k], placeholders, domain, p@, value));
        }
    }
    assert forall|placeholder: Seq<char>, value: Seq<char>| #[trigger]
        substitutions(secrets, placeholders, domain).contains((placeholder, value)) implies exists|
        i: int,
        j: int,
    |
        {
            &&& 0 <= i < secrets.len()
            &&& 0 <= j < secrets[i].1.hosts@.len()
            &&& pattern_covers((#[trigger] secrets[i].1.hosts@[j])@, domain)
            &&& secrets[i].1.value@ == value
            &&& value_of(placeholders, secrets[i].0) matches Some(p) && p@ == placeholder
        } by {
        law_secrets_stay_with_their_hosts(secrets, placeholders, domain, placeholder, value);
        let i = choose|i: int|
            0 <= i < secrets.len() && #[trigger] grants(
                secrets[i],
                placeholders,
                domain,
                placeholder,
                value,
            );
        assert(some_pattern_covers(secrets[i].1.hosts@, domain));
        let j = choose|j: int|
            0 <= j < secrets[i].1.hosts@.len() && pattern_covers(
                (#[trigger] secrets[i].1.hosts@[j])@,
                domain,
            );
        assert(pattern_covers(secrets[i].1.hosts@[j]@, domain));
    }
    lemma_substitutions_len(secrets, placeholders, domain);
}

proof fn lemma_substitutions_len(
    secrets: Seq<(Seq<char>, SecretConfig)>,
    placeholders: Seq<(Seq<char>, String)>,
    domain: Seq<char>,
)
    ensures
        substitutions(secrets, placeholders, domain).len() <= secrets.len(),
    decreases secrets.len(),
{
    if secrets.len() > 0 {
        lemma_substitutions_len(secrets.drop_last(), placeholders, domain);
    }
}

/// The pairs that are handed out are read in order: the placeholder first, then what takes
/// its place.
pub proof fn law_pairs_are_placeholder_and_value(v: Seq<(String, String)>, i: int)
    requires
        0 <= i < v.len(),
    ensures
        pair_texts(v).len() == v.len(),
        pair_texts(v)[i].0 == v[i].0@,
        pair_texts(v)[i].1 == v[i].1@,
{
}

/// The pairs come in the order of the secrets: one more secret adds at most one pair, at
/// the end.
pub proof fn law_substitutions_follow_the_secrets(
    secrets: Seq<(Seq<char>, SecretConfig)>,
    entry: (Seq<char>, SecretConfig),
    placeholders: Seq<(Seq<char>, String)>,
    domain: Seq<char>,
)
    ensures
        ({
            let before = substitutions(secrets, placeholders, domain);
            let after = substitutions(secrets.push(entry), placeholders, domain);
            match value_of(placeholders, entry.0) {
                Some(p) => if exists|j: int|
                    0 <= j < entry.1.hosts@.len() && pattern_covers(
                        (#[trigger] entry.1.hosts@[j])@,
                        domain,
                    ) {
                    after == before.push((p@, entry.1.value@))
                } else {
                    after == before
                },
                None => after == before,
            }
        }),
{
    assert(secrets.push(entry).drop_last() =~= secrets);
    assert(secrets.push(entry).last() == entry);
}

} // verus!
