use vstd::prelude::*;

verus! {

/// Connection settings read at startup from the configuration file. The
/// file I/O and the parsing live outside the library; this is the plain
/// record they produce.
pub struct ConfigLoader {
    pub server_host: String,
    pub server_port: u16,
    pub server_user: String,
    pub server_password: String,
    pub server_db_name: String,
    pub server_db_schema: String,
}

} // verus!
