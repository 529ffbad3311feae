//! Chain configuration types and `${VAR}` template expansion.
use crate::asset::Asset;
use crate::error::EscrowError;
use crate::outside::{ascii_lowercase, is_ascii, lowercase_of, to_lowercase};
use vstd::prelude::*;
use vstd::string::{StrSliceExecFns, StringExecFns};

verus! {

/// State of escrow execution in the client.
#[derive(Debug, Clone, Copy, PartialEq, Eq, Structural)]
pub enum ExecutionState {
    /// Escrow object created.
    Initialized,
    /// Funds have been deposited; awaiting release or cancellation.
    Funded,
    /// Conditions (if any) have been fulfilled; funds will be released to the
    /// recipient if the proof verifies on-chain.
    ConditionsMet,
}

/// Supported blockchain networks.
#[derive(Debug, Clone, Copy, PartialEq, Eq, Structural)]
pub enum Chain {
    /// Ethereum and other EVM-compatible chains.
    Ethereum,
    /// Solana.
    Solana,
}

/// Chain-specific network configuration for creating or querying escrows.
#[derive(Debug, Clone)]
pub struct ChainConfig {
    /// Network identifier.
    pub chain: Chain,
    /// JSON-RPC endpoint URL.
    pub rpc_url: String,
    /// Sender's private key (Ethereum) or keypair path (Solana).
    pub sender_private_id: String,
    /// On-chain escrow program id (Solana) or contract address (Ethereum).
    pub agent_id: String,
}

/// Metadata returned from on-chain escrow creation.
#[derive(Debug, Clone)]
pub struct EscrowMetadata {
    /// The parameters that were specified during escrow creation.
    pub params: EscrowParams,
    /// State of escrow execution in the client.
    pub state: ExecutionState,
    /// Unique identifier for the created escrow.
    pub escrow_id: Option<u64>,
}

/// Parameters required to create an escrow on-chain. The parties are given
/// in their textual form (a hex address on Ethereum, a base58 key on Solana).
#[derive(Debug, Clone)]
pub struct EscrowParams {
    /// Chain-specific network configuration.
    pub chain_config: ChainConfig,
    /// Exactly which asset to lock (the native coin or a fungible token).
    pub asset: Asset,
    /// Who is funding the escrow.
    pub sender: String,
    /// Who will receive the funds once conditions pass.
    pub recipient: String,
    /// Optional block height or slot after which release is allowed.
    pub finish_after: Option<u64>,
    /// Optional block height or slot after which cancellation is allowed.
    pub cancel_after: Option<u64>,
    /// Whether this escrow is subject to cryptographic conditions.
    pub has_conditions: bool,
}

impl Chain {
    /// The chain's lowercase name.
    pub open spec fn name(self) -> Seq<char> {
        match self {
            Chain::Ethereum => seq!['e', 't', 'h', 'e', 'r', 'e', 'u', 'm'],
            Chain::Solana => seq!['s', 'o', 'l', 'a', 'n', 'a'],
        }
    }

    /// The chain's lowercase name.
    pub fn as_ref(&self) -> (s: &'static str)
        ensures
            s@ == self.name(),
    {
        proof {
            reveal_strlit("ethereum");
            reveal_strlit("solana");
            assert("ethereum"@ =~= seq!['e', 't', 'h', 'e', 'r', 'e', 'u', 'm']);
            assert("solana"@ =~= seq!['s', 'o', 'l', 'a', 'n', 'a']);
        }
        match self {
            Chain::Ethereum => "ethereum",
            Chain::Solana => "solana",
        }
    }

    /// Parses a chain name, case-insensitively: `ethereum` or `eth`, `solana` or
    /// `sol`. Anything else is `UnsupportedChain`.
    pub fn from_name(s: &str) -> (r: Result<Chain, EscrowError>)
        ensures
            r == chain_named(lowercase_of(s@)),
            is_ascii(s@) ==> r == chain_named(ascii_lowercase(s@)),
            is_lower_ascii(s@) ==> r == chain_named(s@),
    {
        let lower = to_lowercase(s);
        let l = lower.as_str();
        proof {
            reveal_strlit("ethereum");
            reveal_strlit("eth");
            reveal_strlit("solana");
            reveal_strlit("sol");
            assert("ethereum"@ =~= seq!['e', 't', 'h', 'e', 'r', 'e', 'u', 'm']);
            assert("eth"@ =~= seq!['e', 't', 'h']);
            assert("solana"@ =~= seq!['s', 'o', 'l', 'a', 'n', 'a']);
            assert("sol"@ =~= seq!['s', 'o', 'l']);
        }
        if str_eq(l, "ethereum") || str_eq(l, "eth") {
            Ok(Chain::Ethereum)
        } else if str_eq(l, "solana") || str_eq(l, "sol") {
            Ok(Chain::Solana)
        } else {
            Err(EscrowError::UnsupportedChain)
        }
    }
}

/// Whether every character is an ASCII lowercase letter.
pub open spec fn is_lower_ascii(s: Seq<char>) -> bool {
    forall|i: int| 0 <= i < s.len() ==> 'a' <= #[trigger] s[i] <= 'z'
}

/// A chain's name parses back to the chain: `from_name(c.as_ref())` is `Ok(c)`.
pub proof fn lemma_chain_name_roundtrip(c: Chain)
    ensures
        is_lower_ascii(c.name()),
        chain_named(c.name()) == Ok::<Chain, EscrowError>(c),
{
    let ethereum = seq!['e', 't', 'h', 'e', 'r', 'e', 'u', 'm'];
    let eth = seq!['e', 't', 'h'];
    let solana = seq!['s', 'o', 'l', 'a', 'n', 'a'];
    assert(ethereum.len() == 8 && eth.len() == 3 && solana.len() == 6);
    assert(solana[0] == 's' && ethereum[0] == 'e' && eth[0] == 'e');
    assert(solana != ethereum && solana != eth);
}

/// Chain names are case-insensitive: an ASCII string whose lowercase is a
/// chain's name parses to that chain.
pub proof fn lemma_chain_name_any_case(c: Chain, s: Seq<char>)
    requires
        is_ascii(s),
        ascii_lowercase(s) == c.name(),
    ensures
        chain_named(ascii_lowercase(s)) == Ok::<Chain, EscrowError>(c),
{
    lemma_chain_name_roundtrip(c);
}

/// The chain a lowercase name denotes.
pub open spec fn chain_named(lower: Seq<char>) -> Result<Chain, EscrowError> {
    if lower == seq!['e', 't', 'h', 'e', 'r', 'e', 'u', 'm'] || lower == seq!['e', 't', 'h'] {
        Ok(Chain::Ethereum)
    } else if lower == seq!['s', 'o', 'l', 'a', 'n', 'a'] || lower == seq!['s', 'o', 'l'] {
        Ok(Chain::Solana)
    } else {
        Err(EscrowError::UnsupportedChain)
    }
}

impl std::str::FromStr for Chain {
    type Err = EscrowError;

    /// Parses a chain name, case-insensitively (see [`Chain::from_name`]).
    fn from_str(s: &str) -> (r: Result<Self, Self::Err>)
        ensures
            r == chain_named(lowercase_of(s@)),
            is_ascii(s@) ==> r == chain_named(ascii_lowercase(s@)),
            is_lower_ascii(s@) ==> r == chain_named(s@),
    {
        Chain::from_name(s)
    }
}

/// Whether two strings hold the same characters.
pub fn str_eq(a: &str, b: &str) -> (r: bool)
    ensures
        r == (a@ == b@),
{
    let n = a.unicode_len();
    if n != b.unicode_len() {
        return false;
    }
    let mut i: usize = 0;
    while i < n
        invariant
            n == a@.len() == b@.len(),
            i <= n,
            forall|k: int| 0 <= k < i ==> a@[k] == b@[k],
        decreases n - i,
    {
        if a.get_char(i) != b.get_char(i) {
            return false;
        }
        i = i + 1;
    }
    assert(a@ =~= b@);
    true
}

/// Whether a `${` starts at `i`.
pub open spec fn opens_at(s: Seq<char>, i: int) -> bool {
    0 <= i && i + 1 < s.len() && s[i] == '$' && s[i + 1] == '{'
}

/// The first `${` at or after `p`.
pub open spec fn find_open(s: Seq<char>, p: nat) -> Option<nat>
    decreases s.len() - p,
{
    if p + 1 >= s.len() {
        None
    } else if opens_at(s, p as int) {
        Some(p)
    } else {
        find_open(s, p + 1)
    }
}

/// The first `}` at or after `p`.
pub open spec fn find_close(s: Seq<char>, p: nat) -> Option<nat>
    decreases s.len() - p,
{
    if p >= s.len() {
        None
    } else if s[p as int] == '}' {
        Some(p)
    } else {
        find_close(s, p + 1)
    }
}

pub proof fn lemma_find_open(s: Seq<char>, p: nat)
    ensures
        find_open(s, p) matches Some(i) ==> p <= i && opens_at(s, i as int) && forall|k: int|
            p <= k < i ==> !opens_at(s, k),
        find_open(s, p) is None ==> forall|k: int| p <= k ==> !opens_at(s, k),
    decreases s.len() - p,
{
    if p + 1 < s.len() && !opens_at(s, p as int) {
        lemma_find_open(s, p + 1);
    }
}

pub proof fn lemma_find_close(s: Seq<char>, p: nat)
    ensures
        find_close(s, p) matches Some(j) ==> p <= j < s.len() && s[j as int] == '}' && forall|k: int|
            p <= k < j ==> s[k] != '}',
        find_close(s, p) is None ==> forall|k: int| p <= k < s.len() ==> s[k] != '}',
    decreases s.len() - p,
{
    if p < s.len() && s[p as int] != '}' {
        lemma_find_close(s, p + 1);
    }
}

/// The text a lookup result contributes: its value, or nothing when unset.
pub open spec fn resolved(v: Option<Seq<char>>) -> Seq<char> {
    match v {
        Some(t) => t,
        None => Seq::empty(),
    }
}

/// `s` from `p` on with its `${NAME}` references replaced, in order, by the
/// values `vals`. A `${` with no closing `}` is kept as text.
pub open spec fn expand_from(s: Seq<char>, p: nat, vals: Seq<Option<Seq<char>>>) -> Seq<char>
    decreases s.len() - p,
{
    if p > s.len() {
        Seq::empty()
    } else {
        match find_open(s, p) {
            None => s.subrange(p as int, s.len() as int),
            Some(i) => match find_close(s, i + 2) {
                None => s.subrange(p as int, s.len() as int),
                Some(j) => {
                    proof {
                        lemma_find_open(s, p);
                        lemma_find_close(s, i + 2);
                    }
                    s.subrange(p as int, i as int) + resolved(vals[0]) + expand_from(
                        s,
                        j + 1,
                        vals.drop_first(),
                    )
                },
            },
        }
    }
}

/// The names `s` references from `p` on, in order.
pub open spec fn refs_from(s: Seq<char>, p: nat) -> Seq<Seq<char>>
    decreases s.len() - p,
{
    if p > s.len() {
        Seq::empty()
    } else {
        match find_open(s, p) {
            None => Seq::empty(),
            Some(i) => match find_close(s, i + 2) {
                None => Seq::empty(),
                Some(j) => {
                    proof {
                        lemma_find_open(s, p);
                        lemma_find_close(s, i + 2);
                    }
                    seq![s.subrange(i + 2int, j as int)] + refs_from(s, j + 1)
                },
            },
        }
    }
}

/// A string without `${` expands to itself, whatever the lookup answers.
pub proof fn lemma_expand_without_references(s: Seq<char>, vals: Seq<Option<Seq<char>>>)
    requires
        forall|i: int| !opens_at(s, i),
    ensures
        expand_from(s, 0, vals) == s,
        refs_from(s, 0).len() == 0,
{
    lemma_find_open(s, 0);
    if find_open(s, 0) is Some {
        assert(opens_at(s, find_open(s, 0)->0 as int));
    }
    assert(s.subrange(0, s.len() as int) =~= s);
}

/// The reference to `name`, as it is written in a template: `${name}`.
pub open spec fn reference_text(name: Seq<char>) -> Seq<char> {
    seq!['$', '{'] + name + seq!['}']
}

proof fn lemma_reemitting_from(s: Seq<char>, p: nat, vals: Seq<Option<Seq<char>>>)
    requires
        p <= s.len(),
        vals.len() == refs_from(s, p).len(),
        forall|k: int| 0 <= k < vals.len() ==> vals[k] == Some(reference_text(refs_from(s, p)[k])),
    ensures
        expand_from(s, p, vals) == s.subrange(p as int, s.len() as int),
    decreases s.len() - p,
{
    lemma_find_open(s, p);
    if let Some(i) = find_open(s, p) {
        lemma_find_close(s, i + 2);
        if let Some(j) = find_close(s, i + 2) {
            let here = refs_from(s, p);
            let later = refs_from(s, j + 1);
            assert(here == seq![s.subrange(i + 2int, j as int)] + later);
            let rest = vals.drop_first();
            assert forall|k: int| 0 <= k < rest.len() implies rest[k] == Some(
                reference_text(later[k]),
            ) by {
                assert(rest[k] == vals[k + 1]);
                assert(here[k + 1] == later[k]);
            }
            lemma_reemitting_from(s, j + 1, rest);
            assert(vals[0] == Some(reference_text(s.subrange(i + 2int, j as int))));
            assert(s.subrange(p as int, i as int) + reference_text(s.subrange(i + 2int, j as int))
                + s.subrange(j + 1int, s.len() as int) =~= s.subrange(p as int, s.len() as int));
        }
    }
}

/// A lookup that answers every name with its own reference, `${name}`, gives
/// the input back unchanged.
pub proof fn lemma_reemitting_lookup_is_identity(s: Seq<char>, vals: Seq<Option<Seq<char>>>)
    requires
        vals.len() == refs_from(s, 0).len(),
        forall|k: int| 0 <= k < vals.len() ==> vals[k] == Some(reference_text(refs_from(s, 0)[k])),
    ensures
        expand_from(s, 0, vals) == s,
{
    lemma_reemitting_from(s, 0, vals);
    assert(s.subrange(0, s.len() as int) =~= s);
}

/// Whether `lookup`, asked for `name`, may answer `value` (by view).
pub open spec fn lookup_gave<F: Fn(&str) -> Option<String>>(
    lookup: F,
    name: Seq<char>,
    value: Option<Seq<char>>,
) -> bool {
    exists|x: &str, o: Option<String>|
        #![trigger call_ensures(lookup, (x,), o)]
        x@ == name && call_ensures(lookup, (x,), o) && value == match o {
            Some(t) => Some(t@),
            None => None::<Seq<char>>,
        }
}

/// The names of `names` whose value in `vals` is unset, in order.
pub open spec fn unset_names(names: Seq<Seq<char>>, vals: Seq<Option<Seq<char>>>) -> Seq<Seq<char>>
    decreases names.len(),
{
    if names.len() == 0 || vals.len() == 0 {
        Seq::empty()
    } else if vals.last() is None {
        unset_names(names.drop_last(), vals.drop_last()).push(names.last())
    } else {
        unset_names(names.drop_last(), vals.drop_last())
    }
}

/// A name is reported unset exactly when the lookup answered `None` for it:
/// every reference answered `None` is in the list, everything in the list is
/// a reference answered `None` (a name set to any value, the empty string
/// included, is not), and when every reference got an answer the list is
/// empty. When no reference got an answer, every name is listed, in order.
pub proof fn lemma_unset_names_are_unanswered(names: Seq<Seq<char>>, vals: Seq<Option<Seq<char>>>)
    requires
        names.len() == vals.len(),
    ensures
        forall|k: int|
            0 <= k < vals.len() && vals[k] is None ==> unset_names(names, vals).contains(
                #[trigger] names[k],
            ),
        forall|x: Seq<char>|
            #![trigger unset_names(names, vals).contains(x)]
            unset_names(names, vals).contains(x) ==> exists|k: int|
                0 <= k < vals.len() && vals[k] is None && names[k] == x,
        (forall|k: int| 0 <= k < vals.len() ==> (#[trigger] vals[k]) is Some) ==> unset_names(
            names,
            vals,
        ).len() == 0,
        (forall|k: int| 0 <= k < vals.len() ==> (#[trigger] vals[k]) is None) ==> unset_names(
            names,
            vals,
        ) == names,
    decreases names.len(),
{
    if names.len() > 0 {
        let n0 = names.drop_last();
        let v0 = vals.drop_last();
        lemma_unset_names_are_unanswered(n0, v0);
        let rest = unset_names(n0, v0);
        let last = names.len() - 1;
        assert forall|k: int|
            0 <= k < vals.len() && vals[k] is None implies unset_names(names, vals).contains(
                #[trigger] names[k],
            ) by {
            if k < last {
                assert(v0[k] == vals[k] && n0[k] == names[k]);
                assert(rest.contains(names[k]));
                let i = choose|i: int| 0 <= i < rest.len() && rest[i] == names[k];
                if vals.last() is None {
                    assert(rest.push(names.last())[i] == names[k]);
                }
            } else {
                assert(unset_names(names, vals) == rest.push(names.last()));
                assert(rest.push(names.last())[rest.len() as int] == names[k]);
            }
        }
        assert forall|x: Seq<char>|
            #![trigger unset_names(names, vals).contains(x)]
            unset_names(names, vals).contains(x) implies exists|k: int|
                0 <= k < vals.len() && vals[k] is None && names[k] == x by {
            let u = unset_names(names, vals);
            let i = choose|i: int| 0 <= i < u.len() && u[i] == x;
            if vals.last() is None && i == rest.len() {
                assert(vals[last] is None && names[last] == x);
            } else {
                assert(u[i] == rest[i]);
                assert(rest.contains(x));
                let k = choose|k: int| 0 <= k < v0.len() && v0[k] is None && n0[k] == x;
                assert(vals[k] == v0[k] && names[k] == n0[k]);
            }
        }
        if forall|k: int| 0 <= k < vals.len() ==> (#[trigger] vals[k]) is Some {
            assert forall|k: int| 0 <= k < v0.len() implies (#[trigger] v0[k]) is Some by {
                assert(v0[k] == vals[k]);
            }
            assert(vals[last] is Some);
        }
        if forall|k: int| 0 <= k < vals.len() ==> (#[trigger] vals[k]) is None {
            assert forall|k: int| 0 <= k < v0.len() implies (#[trigger] v0[k]) is None by {
                assert(v0[k] == vals[k]);
            }
            assert(vals[last] is None);
            assert(names =~= n0.push(names.last()));
        }
    }
}

/// Expands `${VAR}` references in `input`, resolving each name through `lookup`.
///
/// Names that `lookup` resolves to `None` are replaced with an empty string; a
/// `${` without a closing `}` is kept as it is. The result is the input with the
/// i-th reference replaced by what `lookup` answered for the i-th name.
pub fn expand_with<F: Fn(&str) -> Option<String>>(input: &str, lookup: F) -> (r: String)
    requires
        forall|x: &str| call_requires(lookup, (x,)),
    ensures
        exists|vals: Seq<Option<Seq<char>>>|
            {
                &&& vals.len() == refs_from(input@, 0).len()
                &&& forall|k: int|
                    0 <= k < vals.len() ==> lookup_gave(lookup, refs_from(input@, 0)[k], vals[k])
                &&& r@ == expand_from(input@, 0, vals)
            },
{
    let expanded = expand_reporting_unset(input, lookup);
    expanded.0
}

/// Expands `${VAR}` references in `input` as [`expand_with`] does, and also
/// gives the names, in order of reference, that `lookup` left unset.
pub fn expand_reporting_unset<F: Fn(&str) -> Option<String>>(input: &str, lookup: F) -> (r: (
    String,
    Vec<String>,
))
    requires
        forall|x: &str| call_requires(lookup, (x,)),
    ensures
        exists|vals: Seq<Option<Seq<char>>>|
            {
                &&& vals.len() == refs_from(input@, 0).len()
                &&& forall|k: int|
                    0 <= k < vals.len() ==> lookup_gave(lookup, refs_from(input@, 0)[k], vals[k])
                &&& r.0@ == expand_from(input@, 0, vals)
                &&& r.1@.map_values(|m: String| m@) == unset_names(refs_from(input@, 0), vals)
            },
{
    let n = input.unicode_len();
    let mut chars: Vec<char> = Vec::new();
    let mut c: usize = 0;
    while c < n
        invariant
            n == input@.len(),
            c <= n,
            chars@ =~= input@.subrange(0, c as int),
        decreases n - c,
    {
        chars.push(input.get_char(c));
        c = c + 1;
    }
    assert(chars@ =~= input@);
    let ghost s = input@;
    let mut result = String::new();
    let mut unset: Vec<String> = Vec::new();
    let mut pos: usize = 0;
    let ghost mut vals: Seq<Option<Seq<char>>> = Seq::empty();
    let ghost mut names: Seq<Seq<char>> = Seq::empty();
    assert(unset@.map_values(|m: String| m@) =~= unset_names(names, vals));
    assert forall|rest: Seq<Option<Seq<char>>>|
        expand_from(s, 0, vals + rest) == result@ + expand_from(s, 0, rest) by {
        assert(vals + rest =~= rest);
        assert(result@ =~= Seq::<char>::empty());
    }
    assert(refs_from(s, 0) =~= names + refs_from(s, 0));
    loop
        invariant_except_break
            forall|rest: Seq<Option<Seq<char>>>|
                #![trigger expand_from(s, pos as nat, rest)]
                expand_from(s, 0, vals + rest) == result@ + expand_from(s, pos as nat, rest),
            refs_from(s, 0) == names + refs_from(s, pos as nat),
        invariant
            s == input@,
            chars@ == s,
            n == s.len(),
            pos <= n,
            forall|x: &str| call_requires(lookup, (x,)),
            names.len() == vals.len(),
            forall|k: int| 0 <= k < vals.len() ==> lookup_gave(lookup, names[k], vals[k]),
            unset@.map_values(|m: String| m@) == unset_names(names, vals),
        ensures
            result@ == expand_from(s, 0, vals),
            unset@.map_values(|m: String| m@) == unset_names(names, vals),
            refs_from(s, 0) == names,
            names.len() == vals.len(),
            forall|k: int| 0 <= k < vals.len() ==> lookup_gave(lookup, names[k], vals[k]),
        decreases n - pos,
    {
        let mut i = pos;
        while i < n && i + 1 < n && !(chars[i] == '$' && chars[i + 1] == '{')
            invariant
                chars@ == s,
                n == s.len(),
                pos <= i <= n,
                forall|k: int| pos <= k < i ==> !opens_at(s, k),
            decreases n - i,
        {
            i = i + 1;
        }
        proof {
            lemma_find_open(s, pos as nat);
            lemma_find_open(s, i as nat);
        }
        if i >= n || i + 1 >= n {
            // No further reference: the rest is copied as it is.
            proof {
                assert(find_open(s, pos as nat) is None);
                assert(refs_from(s, pos as nat) =~= Seq::<Seq<char>>::empty());
                assert(names + refs_from(s, pos as nat) =~= names);
            }
            let tail = input.substring_char(pos, n);
            result.append(tail);
            proof {
                let e = Seq::<Option<Seq<char>>>::empty();
                assert(vals + e =~= vals);
                assert(expand_from(s, pos as nat, e) == s.subrange(pos as int, n as int));
            }
            break;
        }
        assert(find_open(s, pos as nat) == Some(i as nat));
        let mut j = i + 2;
        while j < n && chars[j] != '}'
            invariant
                chars@ == s,
                n == s.len(),
                i + 2 <= j <= n,
                forall|k: int| i + 2 <= k < j ==> s[k] != '}',
            decreases n - j,
        {
            j = j + 1;
        }
        proof {
            lemma_find_close(s, (i + 2) as nat);
            lemma_find_close(s, j as nat);
        }
        if j >= n {
            // An unclosed `${`: the rest is copied as it is.
            proof {
                assert(find_close(s, (i + 2) as nat) is None);
                assert(refs_from(s, pos as nat) =~= Seq::<Seq<char>>::empty());
                assert(names + refs_from(s, pos as nat) =~= names);
            }
            let tail = input.substring_char(pos, n);
            result.append(tail);
            proof {
                let e = Seq::<Option<Seq<char>>>::empty();
                assert(vals + e =~= vals);
                assert(expand_from(s, pos as nat, e) == s.subrange(pos as int, n as int));
            }
            break;
        }
        assert(find_close(s, (i + 2) as nat) == Some(j as nat));
        let before = input.substring_char(pos, i);
        result.append(before);
        let name = input.substring_char(i + 2, j);
        let value = lookup(name);
        let ghost v = match &value {
            Some(t) => Some(t@),
            None => None::<Seq<char>>,
        };
        match &value {
            Some(t) => result.append(t.as_str()),
            None => unset.push(String::from_str(name)),
        }
        proof {
            let old_pos = pos as nat;
            let next = (j + 1) as nat;
            assert(lookup_gave(lookup, name@, v));
            assert forall|rest: Seq<Option<Seq<char>>>|
                #![trigger expand_from(s, next, rest)]
                expand_from(s, 0, vals.push(v) + rest) == result@ + expand_from(s, next, rest) by {
                let r2 = seq![v] + rest;
                assert(vals.push(v) + rest =~= vals + r2);
                assert(r2[0] == v);
                assert(r2.drop_first() =~= rest);
                assert(expand_from(s, old_pos, r2) == s.subrange(old_pos as int, i as int)
                    + resolved(v) + expand_from(s, next, rest));
            }
            assert(refs_from(s, old_pos) == seq![name@] + refs_from(s, next));
            assert(names.push(name@) + refs_from(s, next) =~= names + refs_from(s, old_pos));
            let names2 = names.push(name@);
            let vals2 = vals.push(v);
            assert(names2.drop_last() =~= names);
            assert(vals2.drop_last() =~= vals);
            assert(unset@.map_values(|m: String| m@) =~= unset_names(names2, vals2));
            vals = vals2;
            names = names2;
        }
        pos = j + 1;
    }
    proof {
        assert(vals.len() == refs_from(input@, 0).len());
        assert(result@ == expand_from(input@, 0, vals));
    }
    (result, unset)
}

/// `names` joined with `", "`.
pub open spec fn joined(names: Seq<Seq<char>>) -> Seq<char>
    decreases names.len(),
{
    if names.len() == 0 {
        Seq::empty()
    } else if names.len() == 1 {
        names[0]
    } else {
        joined(names.drop_last()) + seq![',', ' '] + names.last()
    }
}

/// The message that names the unset variables a configuration references.
pub open spec fn unset_message(names: Seq<Seq<char>>) -> Seq<char> {
    "unset environment variable(s) referenced in configuration: "@ + joined(names)
}

/// The strings of `names` joined with `", "`.
pub fn join_names(names: &Vec<String>) -> (s: String)
    ensures
        s@ == joined(names@.map_values(|m: String| m@)),
{
    let ghost all = names@.map_values(|m: String| m@);
    let mut s = String::new();
    let mut i: usize = 0;
    while i < names.len()
        invariant
            all == names@.map_values(|m: String| m@),
            i <= names@.len(),
            s@ == joined(all.subrange(0, i as int)),
        decreases names@.len() - i,
    {
        proof {
            reveal_strlit(", ");
            assert(", "@ =~= seq![',', ' ']);
            assert(all.subrange(0, i + 1).drop_last() =~= all.subrange(0, i as int));
            assert(all.subrange(0, i + 1).last() == names@[i as int]@);
        }
        if i > 0 {
            s.append(", ");
        }
        s.append(names[i].as_str());
        i = i + 1;
    }
    assert(all.subrange(0, names@.len() as int) =~= all);
    s
}

/// Expands `${VAR}` references in `input` through `lookup`, requiring every
/// referenced name to be set: the expansion when all are, else the message
/// naming, in order, each reference left unset.
pub fn expand_all_set<F: Fn(&str) -> Option<String>>(input: &str, lookup: F) -> (r: Result<
    String,
    String,
>)
    requires
        forall|x: &str| call_requires(lookup, (x,)),
    ensures
        exists|vals: Seq<Option<Seq<char>>>|
            {
                &&& vals.len() == refs_from(input@, 0).len()
                &&& forall|k: int|
                    0 <= k < vals.len() ==> lookup_gave(lookup, refs_from(input@, 0)[k], vals[k])
                &&& if unset_names(refs_from(input@, 0), vals).len() == 0 {
                    r matches Ok(s) && s@ == expand_from(input@, 0, vals)
                } else {
                    r matches Err(m) && m@ == unset_message(unset_names(refs_from(input@, 0), vals))
                }
            },
{
    let (expanded, unset) = expand_reporting_unset(input, lookup);
    let ghost vals = choose|vals: Seq<Option<Seq<char>>>|
        {
            &&& vals.len() == refs_from(input@, 0).len()
            &&& forall|k: int|
                0 <= k < vals.len() ==> lookup_gave(lookup, refs_from(input@, 0)[k], vals[k])
            &&& expanded@ == expand_from(input@, 0, vals)
            &&& unset@.map_values(|m: String| m@) == unset_names(refs_from(input@, 0), vals)
        };
    if unset.len() == 0 {
        Ok(expanded)
    } else {
        proof {
            reveal_strlit("unset environment variable(s) referenced in configuration: ");
        }
        let mut m = String::from_str("unset environment variable(s) referenced in configuration: ");
        let names = join_names(&unset);
        m.append(names.as_str());
        Err(m)
    }
}

} // verus!
