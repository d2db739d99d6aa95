//! Configuration of the ExtProc server.
//!
//! A minimal config holds filter chains and server settings; listeners
//! and clusters are omitted because Envoy owns networking. The filter
//! chains are checked and flattened here, in order, into the entry list
//! from which the filter pipeline is built.

use vstd::prelude::*;

use crate::error::Error;
use crate::tls::TlsConfig;

verus! {

// -----------------------------------------------------------------------------
// ServerConfig
// -----------------------------------------------------------------------------

/// gRPC server bind address and options.
#[derive(Debug)]
pub struct ServerConfig {
    /// gRPC listen address.
    pub grpc_address: String,
    /// Health check listen address.
    pub health_address: String,
    /// Metrics endpoint listen address.
    pub metrics_address: String,
    /// TLS configuration.
    pub tls: TlsConfig,
}

impl Default for ServerConfig {
    fn default() -> (c: ServerConfig)
        ensures
            c.grpc_address@ == "0.0.0.0:50051"@,
            c.health_address@ == "0.0.0.0:50052"@,
            c.metrics_address@ == "0.0.0.0:9090"@,
            c.tls.mode == crate::tls::TlsMode::Plaintext,
            c.tls.cert_path.is_none(),
            c.tls.key_path.is_none(),
    {
        ServerConfig {
            grpc_address: String::from_str("0.0.0.0:50051"),
            health_address: String::from_str("0.0.0.0:50052"),
            metrics_address: String::from_str("0.0.0.0:9090"),
            tls: TlsConfig::default(),
        }
    }
}

// -----------------------------------------------------------------------------
// Filter chains
// -----------------------------------------------------------------------------

/// A named filter chain: the filter entries, in order, of type `E`.
#[derive(Debug)]
pub struct FilterChain<E> {
    /// The chain's name, unique in a configuration.
    pub name: String,
    /// The chain's filter entries.
    pub filters: Vec<E>,
}

/// The names of the chains.
pub open spec fn chain_names<E>(chains: Seq<FilterChain<E>>) -> Seq<Seq<char>> {
    chains.map_values(|c: FilterChain<E>| c.name@)
}

/// Chain `j` has the name of an earlier chain.
pub open spec fn repeats_earlier(names: Seq<Seq<char>>, j: int) -> bool {
    exists|i: int| 0 <= i < j && names[i] == names[j]
}

/// No two chains share a name.
pub open spec fn names_distinct(names: Seq<Seq<char>>) -> bool {
    forall|i: int, j: int| 0 <= i < j < names.len() ==> names[i] != names[j]
}

/// Chain `j` is the first chain whose name was seen before.
pub open spec fn first_repeat(names: Seq<Seq<char>>, j: int) -> bool {
    &&& 0 <= j < names.len()
    &&& repeats_earlier(names, j)
    &&& forall|k: int| 0 <= k < j ==> !repeats_earlier(names, k)
}

/// The cause of a duplicate-name error for the given name.
pub open spec fn duplicate_name(name: Seq<char>) -> Seq<char> {
    "duplicate filter chain name: "@ + name
}

/// The entries of all chains, concatenated in order.
pub open spec fn flattened<E>(chains: Seq<FilterChain<E>>) -> Seq<E>
    decreases chains.len(),
{
    if chains.len() == 0 {
        Seq::empty()
    } else {
        flattened(chains.drop_last()) + chains.last().filters@
    }
}

/// Reject configs with duplicate filter chain names.
///
/// On a duplicate, the error names the first chain whose name was used by
/// an earlier one.
pub fn validate_chain_names<E>(chains: &[FilterChain<E>]) -> (r: Result<(), Error>)
    ensures
        r is Ok <==> names_distinct(chain_names(chains@)),
        r matches Err(e) ==> exists|j: int|
            first_repeat(chain_names(chains@), j) && e.is_config(duplicate_name(chains@[j].name@)),
{
    let ghost names = chain_names(chains@);
    let n = chains.len();
    for j in 0..n
        invariant
            n == chains@.len(),
            names == chain_names(chains@),
            forall|k: int| 0 <= k < j ==> !repeats_earlier(names, k),
    {
        for i in 0..j
            invariant
                n == chains@.len(),
                names == chain_names(chains@),
                j < n,
                forall|k: int| 0 <= k < j ==> !repeats_earlier(names, k),
                forall|k: int| 0 <= k < i ==> names[k] != names[j as int],
        {
            if chains[i].name == chains[j].name {
                proof {
                    assert(names[i as int] == names[j as int]);
                    assert(repeats_earlier(names, j as int));
                }
                let mut message = String::from_str("duplicate filter chain name: ");
                message.append(chains[j].name.as_str());
                proof {
                    assert(first_repeat(names, j as int));
                }
                return Err(Error::Config(message));
            }
        }
        proof {
            assert(!repeats_earlier(names, j as int));
        }
    }
    proof {
        assert forall|i: int, j: int| 0 <= i < j < names.len() implies names[i] != names[j] by {
            assert(!repeats_earlier(names, j));
        }
    }
    Ok(())
}

/// Concatenate all filter chain entries into a single flat list, in order.
pub fn flatten_chains<E: Clone>(chains: &[FilterChain<E>]) -> (r: Vec<E>)
    ensures
        r@.len() == flattened(chains@).len(),
        forall|i: int| 0 <= i < r@.len() ==> cloned::<E>(flattened(chains@)[i], #[trigger] r@[i]),
{
    let mut out: Vec<E> = Vec::new();
    let n = chains.len();
    for c in 0..n
        invariant
            n == chains@.len(),
            out@.len() == flattened(chains@.take(c as int)).len(),
            forall|i: int|
                0 <= i < out@.len() ==> cloned::<E>(flattened(chains@.take(c as int))[i], #[trigger] out@[i]),
    {
        let filters = &chains[c].filters;
        let ghost before = out@;
        proof {
            assert(chains@.take(c + 1).drop_last() =~= chains@.take(c as int));
            assert(chains@.take(c + 1).last() == chains@[c as int]);
        }
        let m = filters.len();
        for f in 0..m
            invariant
                n == chains@.len(),
                c < n,
                filters == &chains@[c as int].filters,
                m == filters@.len(),
                before.len() == flattened(chains@.take(c as int)).len(),
                forall|i: int|
                    0 <= i < before.len() ==> cloned::<E>(flattened(chains@.take(c as int))[i], #[trigger] before[i]),
                out@.len() == before.len() + f,
                forall|i: int| 0 <= i < before.len() ==> out@[i] == before[i],
                forall|i: int|
                    0 <= i < f ==> cloned::<E>(filters@[i], #[trigger] out@[before.len() + i]),
        {
            out.push(filters[f].clone());
        }
        proof {
            let flat = flattened(chains@.take(c + 1));
            assert(flat == flattened(chains@.take(c as int)) + filters@);
            assert forall|i: int| 0 <= i < out@.len() implies cloned::<E>(flat[i], #[trigger] out@[i]) by {
                if i < before.len() {
                    assert(out@[i] == before[i]);
                } else {
                    assert(out@[before.len() + (i - before.len())] == out@[i]);
                }
            }
        }
    }
    proof {
        assert(chains@.take(n as int) =~= chains@);
    }
    out
}

// -----------------------------------------------------------------------------
// ExtProcConfig
// -----------------------------------------------------------------------------

/// Top-level ExtProc server configuration, with filter entries of type `E`
/// and security overrides of type `O`.
#[derive(Debug)]
pub struct ExtProcConfig<E, O> {
    /// Named filter chains. Concatenated in order to form the pipeline.
    pub filter_chains: Vec<FilterChain<E>>,
    /// Security overrides for development.
    pub insecure_options: O,
    /// gRPC server settings.
    pub server: ServerConfig,
}

/// What the filter pipeline is built from: the entries of all chains in
/// order, and each chain's name with its own entries.
#[derive(Debug)]
pub struct PipelineInputs<'a, E> {
    /// The entries of all chains, concatenated in order.
    pub entries: Vec<E>,
    /// Each chain's name and entries, in configuration order.
    pub chains: Vec<(&'a str, &'a [E])>,
}

/// Check the filter chains of a configuration and gather what the
/// pipeline is built from.
///
/// Fails exactly as `validate_chain_names` does; otherwise gives the
/// flattened entries and the table of chains.
pub fn prepare_pipeline<'a, E: Clone, O>(config: &'a ExtProcConfig<E, O>) -> (r: Result<
    PipelineInputs<'a, E>,
    Error,
>)
    ensures
        r is Ok <==> names_distinct(chain_names(config.filter_chains@)),
        r matches Err(e) ==> exists|j: int|
            first_repeat(chain_names(config.filter_chains@), j) && e.is_config(
                duplicate_name(config.filter_chains@[j].name@),
            ),
        r matches Ok(p) ==> {
            &&& p.entries@.len() == flattened(config.filter_chains@).len()
            &&& forall|i: int|
                0 <= i < p.entries@.len() ==> cloned::<E>(
                    flattened(config.filter_chains@)[i],
                    #[trigger] p.entries@[i],
                )
            &&& p.chains@.len() == config.filter_chains@.len()
            &&& forall|i: int|
                0 <= i < p.chains@.len() ==> (#[trigger] p.chains@[i]).0@
                    == config.filter_chains@[i].name@ && p.chains@[i].1@
                    == config.filter_chains@[i].filters@
        },
{
    let chains = config.filter_chains.as_slice();
    let checked = validate_chain_names(chains);
    if let Err(e) = checked {
        return Err(e);
    }
    let mut table: Vec<(&'a str, &'a [E])> = Vec::new();
    let n = chains.len();
    for i in 0..n
        invariant
            n == chains@.len(),
            chains@ == config.filter_chains@,
            table@.len() == i,
            forall|k: int|
                0 <= k < i ==> (#[trigger] table@[k]).0@ == chains@[k].name@ && table@[k].1@
                    == chains@[k].filters@,
    {
        let chain = &chains[i];
        table.push((chain.name.as_str(), chain.filters.as_slice()));
    }
    let entries = flatten_chains(chains);
    Ok(PipelineInputs { entries, chains: table })
}

// -----------------------------------------------------------------------------
// Listen addresses
// -----------------------------------------------------------------------------

/// The listen address to use: the command-line override when one was
/// given, and the configured address otherwise.
pub fn select_address<'a>(cli_override: &'a Option<String>, config_default: &'a str) -> (r: &'a str)
    ensures
        r@ == (match cli_override {
            Some(s) => s@,
            None => config_default@,
        }),
{
    match cli_override {
        Some(s) => s.as_str(),
        None => config_default,
    }
}

} // verus!
