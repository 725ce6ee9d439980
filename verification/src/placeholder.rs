//! Placeholder tokens, which stand for secrets inside the guest.

use crate::config::SecretConfig;
use crate::string_map::{distinct_keys, lemma_key_index_is, value_of, StringMap};
use crate::text::{cat3, hex, hex_text, lemma_hex_injective, lemma_hex_len};
use vstd::arithmetic::power::pow;
use vstd::prelude::*;

verus! {

/// The token made at a time, in nanoseconds, as the `seq`th of the process.
pub open spec fn placeholder_text(ts: u64, seq: u64) -> Seq<char> {
    "shuru_tok_"@ + hex_text(ts as nat, 16) + hex_text(seq as nat, 4)
}

/// Generate a unique placeholder token for a secret.
pub fn generate_placeholder(ts: u64, seq: u64) -> (r: String)
    ensures
        r@ == placeholder_text(ts, seq),
{
    cat3("shuru_tok_", hex(ts, 16).as_str(), hex(seq, 4).as_str())
}

/// No two tokens of a process are the same, whatever the clock says.
pub proof fn law_placeholders_differ(ts: u64, seq: u64, other_ts: u64, other_seq: u64)
    requires
        seq != other_seq,
    ensures
        placeholder_text(ts, seq) != placeholder_text(other_ts, other_seq),
{
    let a = placeholder_text(ts, seq);
    let b = placeholder_text(other_ts, other_seq);
    assert(pow(16, 16) == 0x1_0000_0000_0000_0000) by {
        reveal_with_fuel(pow, 17);
    }
    lemma_hex_len(ts as nat, 16);
    lemma_hex_len(other_ts as nat, 16);
    if a == b {
        let n = "shuru_tok_"@.len() as int + 16;
        assert(a.skip(n) =~= hex_text(seq as nat, 4));
        assert(b.skip(n) =~= hex_text(other_seq as nat, 4));
        lemma_hex_injective(seq as nat, other_seq as nat, 4);
    }
}

/// Whether those are the placeholders of the secrets: one for each, made at those times
/// and numbered from `first`.
pub open spec fn are_placeholders(
    secrets: Seq<(Seq<char>, SecretConfig)>,
    times: Seq<u64>,
    first: u64,
    placeholders: Seq<(Seq<char>, String)>,
) -> bool {
    &&& placeholders.len() == secrets.len()
    &&& forall|i: int|
        0 <= i < secrets.len() ==> {
            &&& (#[trigger] placeholders[i]).0 == secrets[i].0
            &&& placeholders[i].1@ == placeholder_text(times[i], (first + i) as u64)
        }
}

/// Makes a placeholder for every secret.
pub fn placeholders_for(
    secrets: &StringMap<SecretConfig>,
    times: &Vec<u64>,
    first: u64,
) -> (r: StringMap<String>)
    requires
        times@.len() >= secrets@.len(),
        first + secrets@.len() <= u64::MAX,
    ensures
        are_placeholders(secrets@, times@, first, r@),
{
    proof {
        use_type_invariant(secrets);
    }
    let mut r: StringMap<String> = StringMap::new();
    let mut i: usize = 0;
    while i < secrets.len()
        invariant
            i <= secrets@.len() <= times@.len(),
            first + secrets@.len() <= u64::MAX,
            distinct_keys(secrets@),
            are_placeholders(secrets@.take(i as int), times@, first, r@),
        decreases secrets@.len() - i,
    {
        let name = secrets.key_at(i);
        let token = generate_placeholder(times[i], first + i as u64);
        proof {
            assert forall|j: int| 0 <= j < r@.len() implies (#[trigger] r@[j]).0 != name@ by {
                assert(r@[j].0 == secrets@[j].0);
                assert(secrets@[j].0 != secrets@[i as int].0);
            }
            lemma_key_index_is(r@, name@, r@.len() as int);
        }
        let ghost before = r@;
        r.insert(name.clone(), token);
        assert(r@ =~= before.push((name@, token)));
        i += 1;
    }
    assert(secrets@.take(i as int) =~= secrets@);
    r
}

/// Every secret has a placeholder, and no two have the same.
pub proof fn law_every_secret_has_its_own_placeholder(
    secrets: Seq<(Seq<char>, SecretConfig)>,
    times: Seq<u64>,
    first: u64,
    placeholders: Seq<(Seq<char>, String)>,
    i: int,
    j: int,
)
    requires
        are_placeholders(secrets, times, first, placeholders),
        distinct_keys(secrets),
        first + secrets.len() <= u64::MAX,
        0 <= i < secrets.len(),
        0 <= j < secrets.len(),
    ensures
        value_of(placeholders, secrets[i].0) == Some(placeholders[i].1),
        i != j ==> placeholders[i].1@ != placeholders[j].1@,
{
    assert(placeholders[i].0 == secrets[i].0);
    assert forall|k: int| 0 <= k < i implies (#[trigger] placeholders[k]).0 != secrets[i].0 by {
        assert(secrets[k].0 != secrets[i].0);
    }
    lemma_key_index_is(placeholders, secrets[i].0, i);
    if i != j {
        assert(placeholders[j].0 == secrets[j].0);
        law_placeholders_differ(times[i], (first + i) as u64, times[j], (first + j) as u64);
    }
}

/// A placeholder is made of a fixed prefix, its time in 16 hexadecimal digits and its
/// number in at least 4, and nothing of the secret that it stands for.
pub proof fn law_placeholders_tell_nothing(ts: u64, seq: u64)
    ensures
        placeholder_text(ts, seq) == "shuru_tok_"@ + hex_text(ts as nat, 16) + hex_text(
            seq as nat,
            4,
        ),
        hex_text(ts as nat, 16).len() == 16,
        hex_text(seq as nat, 4).len() >= 4,
{
    assert(pow(16, 16) == 0x1_0000_0000_0000_0000) by {
        reveal_with_fuel(pow, 17);
    }
    lemma_hex_len(ts as nat, 16);
}

/// The guest sees every secret under the secret's own name, as the token that was made for
/// it, and no other name.
pub proof fn law_placeholders_are_named_like_their_secrets(
    secrets: Seq<(Seq<char>, SecretConfig)>,
    times: Seq<u64>,
    first: u64,
    placeholders: Seq<(Seq<char>, String)>,
    i: int,
)
    requires
        are_placeholders(secrets, times, first, placeholders),
        first + secrets.len() <= u64::MAX,
    ensures
        placeholders.len() == secrets.len(),
        0 <= i < secrets.len() ==> placeholders[i].0 == secrets[i].0 && placeholders[i].1@
            == "shuru_tok_"@ + hex_text(times[i] as nat, 16) + hex_text((first + i) as nat, 4),
{
    if 0 <= i < secrets.len() {
        assert(placeholders[i].0 == secrets[i].0);
    }
}

} // verus!
