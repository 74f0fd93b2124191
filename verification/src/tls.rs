//! How the QUIC plan's instances identify themselves, and what they ask of
//! each other's identity: nothing.

use std::sync::Arc;
use vstd::prelude::*;
use vstd::utf8::is_ascii_chars;

verus! {

/// The configuration of a QUIC server.
#[verifier::external_type_specification]
#[verifier::external_body]
pub struct ExServerConfig(quinn::ServerConfig);

/// A certificate of `rcgen`, yet to be signed and serialised.
#[verifier::external_type_specification]
#[verifier::external_body]
pub struct ExCertificate(rcgen::Certificate);

/// Why `rcgen` makes no certificate.
#[verifier::external_type_specification]
#[verifier::external_body]
pub struct ExRcgenError(rcgen::RcgenError);

/// Why `rustls` takes no certificate and key.
#[verifier::external_type_specification]
#[verifier::external_body]
pub struct ExTlsError(rustls::Error);

/// The transport settings of a QUIC endpoint.
#[verifier::external_type_specification]
#[verifier::external_body]
pub struct ExTransportConfig(quinn::TransportConfig);

/// What transport settings say.
pub struct TransportSetup {
    /// How many one-way streams a peer may have open.
    pub uni_streams: nat,
    /// Whether every other setting has its default value.
    pub default_otherwise: bool,
}

/// What `transport` says.
pub uninterp spec fn transport_setup(transport: quinn::TransportConfig) -> TransportSetup;

/// What a server configuration says.
pub struct ServerSetup {
    /// The certificate chain, each certificate in DER.
    pub chain: Seq<Seq<u8>>,
    /// The private key, in DER.
    pub key: Seq<u8>,
    pub transport: TransportSetup,
    /// Whether all else is as `quinn` sets it by default, the random key for
    /// handshake tokens aside.
    pub default_otherwise: bool,
}

/// What `config` says.
pub uninterp spec fn server_setup(config: quinn::ServerConfig) -> ServerSetup;

/// Whether `certificate` is a certificate for `names` that was signed with
/// `key`, the private key to the public key in it; both given in DER.
pub uninterp spec fn self_signed(
    names: Seq<Seq<char>>,
    certificate: Seq<u8>,
    key: Seq<u8>,
) -> bool;

/// What a certificate is made from.
pub struct CertificateSource {
    /// The names that it is for.
    pub names: Seq<Seq<char>>,
    /// The private key that signs it, in DER.
    pub key: Seq<u8>,
    /// Whether the key is at hand and all else is as `rcgen` sets it by default.
    pub simple: bool,
}

/// What `certificate` is made from.
pub uninterp spec fn certificate_source(certificate: rcgen::Certificate) -> CertificateSource;

/// The texts in `names`.
pub open spec fn texts(names: Seq<String>) -> Seq<Seq<char>> {
    names.map_values(|name: String| name@)
}

/// `rcgen::generate_simple_self_signed`: a certificate for `names` with a
/// fresh random key of its own and nothing else out of the ordinary. When
/// making a key fails is not said. It panics if the machine's source of
/// randomness gives out between the making of the key and its first use.
#[verifier::external_body]
fn generate_certificate(names: Vec<String>) -> (made: Result<
    rcgen::Certificate,
    rcgen::RcgenError,
>)
    ensures
        made matches Ok(certificate) ==> {
            &&& certificate_source(certificate).names == texts(names@)
            &&& certificate_source(certificate).simple
        },
{
    rcgen::generate_simple_self_signed(names)
}

/// `rcgen::Certificate::serialize_der`: the certificate in DER, signed anew
/// with its own key. It panics on a name that is not in ASCII, and on some
/// certificates that are not simple. The signature is random, and when signing
/// fails is not said.
#[verifier::external_body]
fn certificate_der(certificate: &rcgen::Certificate) -> (der: Result<Vec<u8>, rcgen::RcgenError>)
    requires
        certificate_source(*certificate).simple,
        forall|i: int|
            0 <= i < certificate_source(*certificate).names.len() ==> is_ascii_chars(
                #[trigger] certificate_source(*certificate).names[i],
            ),
    ensures
        der matches Ok(bytes) ==> self_signed(
            certificate_source(*certificate).names,
            bytes@,
            certificate_source(*certificate).key,
        ),
{
    certificate.serialize_der()
}

/// `rcgen::Certificate::serialize_private_key_der`: the certificate's private
/// key in DER. It panics where the key is kept elsewhere.
#[verifier::external_body]
fn certificate_key_der(certificate: &rcgen::Certificate) -> (key: Vec<u8>)
    requires
        certificate_source(*certificate).simple,
    ensures
        key@ == certificate_source(*certificate).key,
{
    certificate.serialize_private_key_der()
}

/// The transport settings that `quinn` begins with: room for 100 one-way
/// streams, and everything else at its default.
pub open spec fn default_transport() -> TransportSetup {
    TransportSetup { uni_streams: 100, default_otherwise: true }
}

/// `quinn::ServerConfig::with_single_cert`: a configuration with the given
/// chain and key, and everything else at its default. It fails where `rustls`
/// cannot use the key, and also where the machine's source of randomness
/// fails, so that nothing is said of when it does. It panics if that source
/// gives out only when `quinn` draws its key for handshake tokens.
#[verifier::external_body]
fn single_cert_config(chain: Vec<Vec<u8>>, key: Vec<u8>) -> (config: Result<
    quinn::ServerConfig,
    rustls::Error,
>)
    ensures
        config matches Ok(c) ==> server_setup(c) == (ServerSetup {
            chain: chain@.map_values(|certificate: Vec<u8>| certificate@),
            key: key@,
            transport: default_transport(),
            default_otherwise: true,
        }),
{
    let chain = chain.into_iter().map(rustls::Certificate).collect();
    quinn::ServerConfig::with_single_cert(chain, rustls::PrivateKey(key))
}

/// `quinn::TransportConfig::default`: the transport settings to begin with.
#[verifier::external_body]
fn new_transport() -> (transport: quinn::TransportConfig)
    ensures
        transport_setup(transport) == default_transport(),
{
    quinn::TransportConfig::default()
}

/// `quinn::TransportConfig::max_concurrent_uni_streams`: changes how many
/// one-way streams a peer may have open, and nothing else.
#[verifier::external_body]
fn set_uni_streams(transport: &mut quinn::TransportConfig, uni_streams: u8)
    ensures
        transport_setup(*final(transport)) == (TransportSetup {
            uni_streams: uni_streams as nat,
            ..transport_setup(*old(transport))
        }),
{
    transport.max_concurrent_uni_streams(uni_streams.into());
}

/// `quinn::ServerConfig::transport_config`: replaces the transport settings of
/// a configuration, and nothing else.
#[verifier::external_body]
fn set_transport(config: &mut quinn::ServerConfig, transport: quinn::TransportConfig)
    ensures
        server_setup(*final(config)) == (ServerSetup {
            transport: transport_setup(transport),
            ..server_setup(*old(config))
        }),
{
    config.transport_config(Arc::new(transport));
}

/// Why a server cannot be configured.
pub enum ServerConfigError {
    /// No certificate could be made.
    Certificate(rcgen::RcgenError),
    /// The certificate and key that were made cannot be used.
    Tls(rustls::Error),
}

/// The names that servers are certified for.
pub open spec fn server_names() -> Seq<Seq<char>> {
    seq!["localhost"@]
}

/// What a server that presents `certificate` and signs with `key` is
/// configured with: that certificate alone, no one-way streams, and everything
/// else at its default.
pub open spec fn setup_for(certificate: Seq<u8>, key: Seq<u8>) -> ServerSetup {
    ServerSetup {
        chain: seq![certificate],
        key,
        transport: TransportSetup { uni_streams: 0, default_otherwise: true },
        default_otherwise: true,
    }
}

/// What a server is configured with once `quinn` has made of its certificate
/// and key what it could: that configuration, with no one-way streams, and the
/// certificate beside it; or why there is none.
pub fn configured_with(
    made: Result<quinn::ServerConfig, rustls::Error>,
    certificate: Vec<u8>,
) -> (configured: Result<(quinn::ServerConfig, Vec<u8>), ServerConfigError>)
    ensures
        match made {
            Ok(plain) => configured matches Ok((config, presented)) && server_setup(config) == (
            ServerSetup {
                transport: TransportSetup { uni_streams: 0, default_otherwise: true },
                ..server_setup(plain)
            }) && presented@ == certificate@,
            Err(error) => configured matches Err(ServerConfigError::Tls(e)) && e == error,
        },
{
    let mut config: quinn::ServerConfig = match made {
        Ok(config) => config,
        Err(error) => {
            return Err(ServerConfigError::Tls(error));
        },
    };
    let mut transport: quinn::TransportConfig = new_transport();
    set_uni_streams(&mut transport, 0);
    set_transport(&mut config, transport);
    Ok((config, certificate))
}

/// Configures a server that presents `certificate` and signs with `key`;
/// hands the certificate back. Whether the key can be used is for `rustls` to
/// say.
pub fn server_config_for(certificate: Vec<u8>, key: Vec<u8>) -> (configured: Result<
    (quinn::ServerConfig, Vec<u8>),
    ServerConfigError,
>)
    ensures
        match configured {
            Ok((config, presented)) => {
                &&& server_setup(config) == setup_for(certificate@, key@)
                &&& presented@ == certificate@
                &&& server_setup(config).chain.len() == 1
                &&& server_setup(config).chain[0] == certificate@
                &&& server_setup(config).key == key@
                &&& server_setup(config).transport.uni_streams == 0
                &&& server_setup(config).transport.default_otherwise
                &&& server_setup(config).default_otherwise
            },
            Err(ServerConfigError::Tls(_)) => true,
            Err(ServerConfigError::Certificate(_)) => false,
        },
{
    let mut chain: Vec<Vec<u8>> = Vec::new();
    chain.push(certificate.clone());
    proof {
        assert(chain@.map_values(|c: Vec<u8>| c@) =~= seq![certificate@]);
    }
    configured_with(single_cert_config(chain, key), certificate)
}

/// Configures a server with the certificate that `rcgen` has made, in DER, and
/// the key that signed it; or says why there is no certificate.
pub fn certified_with(made: Result<Vec<u8>, rcgen::RcgenError>, key: Vec<u8>) -> (configured: Result<
    (quinn::ServerConfig, Vec<u8>),
    ServerConfigError,
>)
    ensures
        match (made, configured) {
            (Ok(certificate), Ok((config, presented))) => {
                &&& server_setup(config) == setup_for(certificate@, key@)
                &&& presented@ == certificate@
                &&& server_setup(config).chain.len() == 1
                &&& server_setup(config).chain[0] == certificate@
                &&& server_setup(config).key == key@
                &&& server_setup(config).transport.uni_streams == 0
                &&& server_setup(config).transport.default_otherwise
                &&& server_setup(config).default_otherwise
            },
            (Ok(_), Err(error)) => error is Tls,
            (Err(error), Err(ServerConfigError::Certificate(e))) => e == error,
            (Err(_), _) => false,
        },
{
    match made {
        Ok(certificate) => server_config_for(certificate, key),
        Err(error) => Err(ServerConfigError::Certificate(error)),
    }
}

/// Configures a server with a certificate of its own making for `localhost`,
/// and returns the certificate in DER beside the configuration.
pub fn configure_server() -> (configured: Result<
    (quinn::ServerConfig, Vec<u8>),
    ServerConfigError,
>)
    ensures
        match configured {
            Ok((config, certificate)) => exists|key: Seq<u8>|
                {
                    &&& #[trigger] self_signed(server_names(), certificate@, key)
                    &&& server_setup(config) == setup_for(certificate@, key)
                    &&& self_signed(seq!["localhost"@], certificate@, key)
                    &&& server_setup(config).chain.len() == 1
                    &&& server_setup(config).chain[0] == certificate@
                    &&& server_setup(config).key == key
                    &&& server_setup(config).transport.uni_streams == 0
                    &&& server_setup(config).transport.default_otherwise
                    &&& server_setup(config).default_otherwise
                },
            Err(_) => true,
        },
{
    let mut names: Vec<String> = Vec::new();
    names.push("localhost".to_owned());
    proof {
        assert(texts(names@) =~= server_names());
        reveal_strlit("localhost");
    }
    let certificate: rcgen::Certificate = match generate_certificate(names) {
        Ok(certificate) => certificate,
        Err(error) => {
            return Err(ServerConfigError::Certificate(error));
        },
    };
    certified_with(certificate_der(&certificate), certificate_key_der(&certificate))
}

/// A certificate verifier that takes every certificate for valid.
///
/// Whoever answers at an address is taken for the instance there: convenient
/// for testing, and no protection against anyone in between.
#[derive(Clone, Copy, PartialEq, Eq, Structural, Debug)]
pub struct SkipServerVerification;

impl SkipServerVerification {
    /// The verifier, ready to be shared.
    pub fn new() -> (verifier: Arc<Self>)
        ensures
            *verifier == SkipServerVerification,
    {
        Arc::new(SkipServerVerification)
    }

    /// Whether the server that presents these certificates, all in DER, is
    /// who it claims to be: it always is.
    pub fn verify_server_cert(
        &self,
        end_entity: &[u8],
        intermediates: &Vec<Vec<u8>>,
        ocsp_response: &[u8],
    ) -> (valid: bool)
        ensures
            valid,
    {
        true
    }
}

/// A server that is set up with a certificate and a key presents that
/// certificate, alone and whole, and signs with that key; a peer may open no
/// one-way streams, and nothing else is changed. So two servers are set up
/// alike only where their certificates and keys are.
pub proof fn law_server_presents_its_certificate(
    certificate: Seq<u8>,
    key: Seq<u8>,
    other: Seq<u8>,
    other_key: Seq<u8>,
)
    ensures
        setup_for(certificate, key).chain.len() == 1,
        setup_for(certificate, key).chain[0] == certificate,
        setup_for(certificate, key).key == key,
        setup_for(certificate, key).transport.uni_streams == 0,
        setup_for(certificate, key).transport.default_otherwise,
        setup_for(certificate, key).default_otherwise,
        setup_for(certificate, key) == setup_for(other, other_key) <==> certificate == other && key
            == other_key,
{
    let (one, two) = (setup_for(certificate, key), setup_for(other, other_key));
    if one == two {
        assert(one.chain[0] == two.chain[0]);
    }
}

/// Servers are certified for one name, `localhost`.
pub proof fn law_servers_are_certified_for_localhost()
    ensures
        server_names().len() == 1,
        server_names()[0] == "localhost"@,
{
}

/// The texts of names are those names, in their order.
pub proof fn law_texts_are_the_names(names: Seq<String>)
    ensures
        texts(names).len() == names.len(),
        forall|i: int| 0 <= i < names.len() ==> #[trigger] texts(names)[i] == names[i]@,
{
}

} // verus!
