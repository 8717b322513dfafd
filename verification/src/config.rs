//! The client's and server's configuration: where the server listens and
//! where the TLS certificates lie.

use vstd::prelude::*;
use vstd::string::*;
use vstd::utf8::encode_utf8;
use tonic::transport::{Certificate, Identity};

verus! {

/// The decimal digit for `d` (`d < 10`).
pub open spec fn digit_char(d: nat) -> char {
    if d == 0 { '0' }
    else if d == 1 { '1' }
    else if d == 2 { '2' }
    else if d == 3 { '3' }
    else if d == 4 { '4' }
    else if d == 5 { '5' }
    else if d == 6 { '6' }
    else if d == 7 { '7' }
    else if d == 8 { '8' }
    else { '9' }
}

/// `n` written in decimal, without leading zeros.
pub open spec fn decimal(n: nat) -> Seq<char>
    decreases n,
{
    if n < 10 {
        seq![digit_char(n)]
    } else {
        decimal(n / 10).push(digit_char(n % 10))
    }
}

/// The value of a decimal digit.
pub open spec fn digit_value(c: char) -> nat {
    if c == '1' { 1 }
    else if c == '2' { 2 }
    else if c == '3' { 3 }
    else if c == '4' { 4 }
    else if c == '5' { 5 }
    else if c == '6' { 6 }
    else if c == '7' { 7 }
    else if c == '8' { 8 }
    else if c == '9' { 9 }
    else { 0 }
}

/// The number that a string of decimal digits denotes.
pub open spec fn decimal_value(s: Seq<char>) -> nat
    decreases s.len(),
{
    if s.len() == 0 {
        0
    } else {
        decimal_value(s.drop_last()) * 10 + digit_value(s.last())
    }
}

/// Reading back what `decimal` writes gives the number again, so the
/// port in an endpoint is the configured one; the text is never empty.
pub proof fn lemma_decimal_reads_back(n: nat)
    ensures
        decimal_value(decimal(n)) == n,
        decimal(n).len() > 0,
    decreases n,
{
    let s = decimal(n);
    if n >= 10 {
        lemma_decimal_reads_back(n / 10);
        assert(s.drop_last() =~= decimal(n / 10));
        assert(digit_value(digit_char(n % 10)) == n % 10);
        assert(s.last() == digit_char(n % 10));
        assert(decimal_value(s) == decimal_value(s.drop_last()) * 10 + digit_value(s.last()));
        assert(n == (n / 10) * 10 + n % 10) by (nonlinear_arith);
    } else {
        assert(s.drop_last() =~= Seq::<char>::empty());
        assert(digit_value(digit_char(n)) == n);
        assert(decimal_value(s) == decimal_value(s.drop_last()) * 10 + digit_value(s.last()));
    }
}

/// The one-character string for the decimal digit `d`.
fn digit_str(d: u16) -> (s: &'static str)
    requires
        d < 10,
    ensures
        s@ == seq![digit_char(d as nat)],
{
    proof {
        reveal_strlit("0");
        reveal_strlit("1");
        reveal_strlit("2");
        reveal_strlit("3");
        reveal_strlit("4");
        reveal_strlit("5");
        reveal_strlit("6");
        reveal_strlit("7");
        reveal_strlit("8");
        reveal_strlit("9");
    }
    if d == 0 { "0" }
    else if d == 1 { "1" }
    else if d == 2 { "2" }
    else if d == 3 { "3" }
    else if d == 4 { "4" }
    else if d == 5 { "5" }
    else if d == 6 { "6" }
    else if d == 7 { "7" }
    else if d == 8 { "8" }
    else { "9" }
}

/// Appends `n` in decimal to `s`.
pub fn push_decimal(s: &mut String, n: u16)
    ensures
        final(s)@ == old(s)@ + decimal(n as nat),
    decreases n,
{
    if n >= 10 {
        push_decimal(s, n / 10);
    }
    s.append(digit_str(n % 10));
    proof {
        if n >= 10 {
            assert(old(s)@ + decimal(n as nat) =~= old(s)@ + decimal((n / 10) as nat) + seq![digit_char((n % 10) as nat)]);
        } else {
            assert(decimal(n as nat) == seq![digit_char(n as nat)]);
        }
    }
}

/// Where the server is.
pub struct ServerInfo {
    pub address: String,
    pub domain: String,
    pub port: u16,
}

impl ServerInfo {
    /// The address with its port, `address:port`, as the client connects
    /// to it and the server binds it.
    pub fn endpoint(&self) -> (e: String)
        ensures
            e@ == self.address@ + seq![':'] + decimal(self.port as nat),
    {
        let mut e = self.address.clone();
        proof {
            reveal_strlit(":");
        }
        e.append(":");
        push_decimal(&mut e, self.port);
        e
    }
}

/// `dir/file`.
pub open spec fn joined(dir: Seq<char>, file: Seq<char>) -> Seq<char> {
    dir + seq!['/'] + file
}

/// A joined path is the directory as written, then one `/`, then the
/// file name, whatever the directory ends with.
pub proof fn lemma_joined_layout(dir: Seq<char>, file: Seq<char>)
    ensures
        joined(dir, file).len() == dir.len() + 1 + file.len(),
        joined(dir, file).subrange(0, dir.len() as int) == dir,
        joined(dir, file)[dir.len() as int] == '/',
        joined(dir, file).subrange(dir.len() + 1int, joined(dir, file).len() as int) == file,
{
    assert(joined(dir, file).subrange(0, dir.len() as int) =~= dir);
    assert(joined(dir, file).subrange(dir.len() + 1int, joined(dir, file).len() as int) =~= file);
}

/// Appends `/file` to a copy of `dir`.
fn join(dir: &String, file: &String) -> (p: String)
    ensures
        p@ == joined(dir@, file@),
        p@.len() == dir@.len() + 1 + file@.len(),
        p@.subrange(0, dir@.len() as int) == dir@,
        p@[dir@.len() as int] == '/',
        p@.subrange(dir@.len() + 1int, p@.len() as int) == file@,
{
    let mut p = dir.clone();
    proof {
        reveal_strlit("/");
    }
    p.append("/");
    p.append(file.as_str());
    proof {
        lemma_joined_layout(dir@, file@);
    }
    p
}

/// Where the TLS material lies: a directory and, in it, the leaf
/// certificate, its key and the certificate of the authority.
pub struct CertsInfo {
    certs_dir: String,
    leaf_cert: String,
    leaf_key: String,
    ca_cert: String,
}

impl CertsInfo {
    pub closed spec fn spec_certs_dir(&self) -> String {
        self.certs_dir
    }

    pub closed spec fn spec_leaf_cert(&self) -> String {
        self.leaf_cert
    }

    pub closed spec fn spec_leaf_key(&self) -> String {
        self.leaf_key
    }

    pub closed spec fn spec_ca_cert(&self) -> String {
        self.ca_cert
    }

    pub fn new(certs_dir: String, leaf_cert: String, leaf_key: String, ca_cert: String) -> (r: Self)
        ensures
            r.spec_certs_dir() == certs_dir,
            r.spec_leaf_cert() == leaf_cert,
            r.spec_leaf_key() == leaf_key,
            r.spec_ca_cert() == ca_cert,
    {
        CertsInfo { certs_dir, leaf_cert, leaf_key, ca_cert }
    }

    pub fn certs_dir(&self) -> (s: &String)
        ensures
            *s == self.spec_certs_dir(),
    {
        &self.certs_dir
    }

    pub fn leaf_cert(&self) -> (s: &String)
        ensures
            *s == self.spec_leaf_cert(),
    {
        &self.leaf_cert
    }

    pub fn leaf_key(&self) -> (s: &String)
        ensures
            *s == self.spec_leaf_key(),
    {
        &self.leaf_key
    }

    pub fn ca_cert(&self) -> (s: &String)
        ensures
            *s == self.spec_ca_cert(),
    {
        &self.ca_cert
    }

    /// The files to read, in the order certificate, key, authority: each
    /// is its name under the certificates' directory.
    pub fn paths(&self) -> (p: (String, String, String))
        ensures
            p.0@ == joined(self.spec_certs_dir()@, self.spec_leaf_cert()@),
            p.1@ == joined(self.spec_certs_dir()@, self.spec_leaf_key()@),
            p.2@ == joined(self.spec_certs_dir()@, self.spec_ca_cert()@),
    {
        (join(&self.certs_dir, &self.leaf_cert), join(&self.certs_dir, &self.leaf_key), join(&self.certs_dir, &self.ca_cert))
    }

    /// The identity (leaf certificate and key) and the authority's
    /// certificate, from the PEM text read from the files of `paths`;
    /// each keeps the UTF-8 bytes of its text.
    pub fn get(&self, cert: String, key: String, ca_cert: String) -> (r: (Identity, Certificate))
        ensures
            identity_cert_pem(r.0) == encode_utf8(cert@),
            identity_key_pem(r.0) == encode_utf8(key@),
            certificate_pem(r.1) == encode_utf8(ca_cert@),
    {
        (identity_from_pem(cert, key), certificate_from_pem(ca_cert))
    }
}

/// The configuration of a client: the server to ask and its TLS material.
pub struct ClientConfig {
    pub server_info: ServerInfo,
    pub certs_info: CertsInfo,
}

/// Why loading a configuration stopped.
pub enum LoadError {
    /// The file could not be opened.
    CannotOpen,
    /// The file's contents are not a configuration.
    CannotRead,
}

impl LoadError {
    /// The message with which the load stops.
    pub fn message(&self) -> (m: &'static str)
        ensures
            m@ == (match self {
                LoadError::CannotOpen => "Could not open file."@,
                LoadError::CannotRead => "Could not read values."@,
            }),
    {
        match self {
            LoadError::CannotOpen => "Could not open file.",
            LoadError::CannotRead => "Could not read values.",
        }
    }
}

/// The loading of a client's configuration from a file: first the file
/// is named (and shown), then opened and parsed by the caller, whose
/// outcome `finish` turns into the configuration or the reason to stop.
pub struct ConfigLoad {
    file: String,
}

impl ConfigLoad {
    pub closed spec fn spec_file(&self) -> String {
        self.file
    }

    /// The file to show, open and parse.
    pub fn file(&self) -> (f: &String)
        ensures
            *f == self.spec_file(),
    {
        &self.file
    }

    /// Ends the load with its outcome: whether the file could be opened
    /// and, if so, the configuration parsed from it (`None` when its
    /// contents are not one).
    pub fn finish(self, opened: bool, parsed: Option<ClientConfig>) -> (r: Result<ClientConfig, LoadError>)
        ensures
            !opened ==> r matches Err(LoadError::CannotOpen),
            opened && parsed is None ==> r matches Err(LoadError::CannotRead),
            opened && parsed is Some ==> r == Ok::<ClientConfig, LoadError>(parsed->0),
    {
        if !opened {
            Err(LoadError::CannotOpen)
        } else {
            match parsed {
                Some(config) => Ok(config),
                None => Err(LoadError::CannotRead),
            }
        }
    }
}

impl ClientConfig {
    /// Starts loading the configuration stored in `config_file_path`.
    pub fn new(config_file_path: String) -> (load: ConfigLoad)
        ensures
            load.spec_file() == config_file_path,
    {
        ConfigLoad { file: config_file_path }
    }
}

#[verifier::external_type_specification]
#[verifier::external_body]
pub struct ExIdentity(Identity);

#[verifier::external_type_specification]
#[verifier::external_body]
pub struct ExCertificate(Certificate);

/// The PEM bytes that a `Certificate` holds (what its `get_ref` gives).
pub uninterp spec fn certificate_pem(c: Certificate) -> Seq<u8>;

/// The PEM bytes of the certificate that an `Identity` holds.
pub uninterp spec fn identity_cert_pem(i: Identity) -> Seq<u8>;

/// The PEM bytes of the private key that an `Identity` holds.
pub uninterp spec fn identity_key_pem(i: Identity) -> Seq<u8>;

/// Calls `tonic::transport::Identity::from_pem`, which keeps the bytes of
/// the certificate and of the key as they are, unparsed: here the UTF-8
/// bytes of the two strings. Whether they are valid PEM is not checked
/// there, and nothing is stated of it.
#[verifier::external_body]
fn identity_from_pem(cert: String, key: String) -> (r: Identity)
    ensures
        identity_cert_pem(r) == encode_utf8(cert@),
        identity_key_pem(r) == encode_utf8(key@),
{
    Identity::from_pem(cert, key)
}

/// Calls `tonic::transport::Certificate::from_pem`, which keeps the bytes
/// of the certificate as they are, unparsed: here the UTF-8 bytes of the
/// string. Whether they are valid PEM is not checked there, and nothing is
/// stated of it.
#[verifier::external_body]
fn certificate_from_pem(pem: String) -> (r: Certificate)
    ensures
        certificate_pem(r) == encode_utf8(pem@),
{
    Certificate::from_pem(pem)
}

} // verus!
