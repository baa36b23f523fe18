//! How a deployment is set up.
use crate::text;
use crate::text::{cat, cat3, owned};
use vstd::prelude::*;

verus! {

/// How large a request body may be, where nothing else is said.
pub const DEFAULT_MAX_PAYLOAD_BYTES: usize = 1024 * 1024 * 1024;

/// How long a request body may take, in seconds, where nothing else is said. It
/// is the time for the whole body: a byte now and then does not extend it.
pub const DEFAULT_BODY_TIMEOUT_SECS: u64 = 15;

/// How a deployment is set up.
#[derive(Debug)]
pub struct Args {
    pub data_path: String,
    pub pub_url: String,
    pub pub_fqdn: String,
    pub db_url: String,
    pub db_name: String,
    pub gc_path: String,
    pub py_path: String,
    pub bind_addr: String,
    pub bind_port: u16,
    pub max_payload_bytes: usize,
    pub body_timeout_secs: u64,
    /// Whether cookies may travel in the clear: a run for development.
    pub cookie_http_insecure: bool,
    /// Further origins that may call the API.
    pub cors_origin: Vec<String>,
    pub update_script: String,
    pub secret_key_file: String,
    pub session_key_file: String,
}

impl Args {
    /// The set-up where nothing but the port is said.
    pub fn defaults(bind_port: u16) -> (r: Args)
        ensures
            r.data_path@ == "sample-data"@,
            r.pub_url@ == "http://localhost:8081"@,
            r.pub_fqdn@ == "localhost"@,
            r.db_url@ == "mongodb://127.0.0.1:27017"@,
            r.db_name@ == "isabelle"@,
            r.gc_path@.len() == 0,
            r.py_path@.len() == 0,
            r.bind_addr@ == "0.0.0.0"@,
            r.bind_port == bind_port,
            r.max_payload_bytes == DEFAULT_MAX_PAYLOAD_BYTES,
            r.body_timeout_secs == DEFAULT_BODY_TIMEOUT_SECS,
            !r.cookie_http_insecure,
            r.cors_origin@.len() == 0,
            r.update_script@.len() == 0,
            r.secret_key_file@.len() == 0,
            r.session_key_file@.len() == 0,
    {
        Args {
            data_path: owned("sample-data"),
            pub_url: owned("http://localhost:8081"),
            pub_fqdn: owned("localhost"),
            db_url: owned("mongodb://127.0.0.1:27017"),
            db_name: owned("isabelle"),
            gc_path: String::new(),
            py_path: String::new(),
            bind_addr: owned("0.0.0.0"),
            bind_port,
            max_payload_bytes: DEFAULT_MAX_PAYLOAD_BYTES,
            body_timeout_secs: DEFAULT_BODY_TIMEOUT_SECS,
            cookie_http_insecure: false,
            cors_origin: Vec::new(),
            update_script: String::new(),
            secret_key_file: String::new(),
            session_key_file: String::new(),
        }
    }

    /// The file with the key of the secret store.
    pub fn secret_key_path(&self) -> (r: String)
        ensures
            r@ == chosen(self.secret_key_file@, self.data_path@, ".secret-key"@),
    {
        choose_file(self.secret_key_file.as_str(), self.data_path.as_str(), ".secret-key")
    }

    /// The file with the key of session cookies.
    pub fn session_key_path(&self) -> (r: String)
        ensures
            r@ == chosen(self.session_key_file@, self.data_path@, ".session-key"@),
    {
        choose_file(self.session_key_file.as_str(), self.data_path.as_str(), ".session-key")
    }

    /// The file with the secret store.
    pub fn secret_store_path(&self) -> (r: String)
        ensures
            r@ == within(self.data_path@, "secrets.enc"@),
    {
        join(self.data_path.as_str(), "secrets.enc")
    }
}

/// A file in a directory.
pub open spec fn within(dir: Seq<char>, name: Seq<char>) -> Seq<char> {
    if dir.len() == 0 || dir.last() == '/' {
        dir + name
    } else {
        dir + "/"@ + name
    }
}

/// The file that was named, or the usual one in the data directory.
pub open spec fn chosen(named: Seq<char>, dir: Seq<char>, usual: Seq<char>) -> Seq<char> {
    if named.len() > 0 {
        named
    } else {
        within(dir, usual)
    }
}

/// A file in a directory.
pub fn join(dir: &str, name: &str) -> (r: String)
    ensures
        r@ == within(dir@, name@),
{
    let cs = text::chars_of(dir);
    if cs.len() == 0 || cs[cs.len() - 1] == '/' {
        cat(dir, name)
    } else {
        cat3(dir, "/", name)
    }
}

fn choose_file(named: &str, dir: &str, usual: &str) -> (r: String)
    ensures
        r@ == chosen(named@, dir@, usual@),
{
    if named.is_empty() {
        join(dir, usual)
    } else {
        owned(named)
    }
}

/// A file that is named is taken where it is; otherwise the usual one is taken, in the
/// data directory, with one slash between them.
pub proof fn where_files_are(named: Seq<char>, dir: Seq<char>, usual: Seq<char>)
    ensures
        named.len() > 0 ==> chosen(named, dir, usual) == named,
        named.len() == 0 ==> chosen(named, dir, usual) == within(dir, usual),
        dir.len() > 0 && dir.last() != '/' ==> within(dir, usual) == dir + "/"@ + usual,
        within(dir.push('/'), usual) == dir.push('/') + usual,
        within(Seq::empty(), usual) == usual,
{
    assert(Seq::<char>::empty() + usual =~= usual);
}

} // verus!
