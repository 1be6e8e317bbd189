//! Ports, names, paths and limits that the whole program shares.

use vstd::prelude::*;

verus! {

/// The default SSH port which is set up on a server and checked.
pub const SSH_PORT: u16 = 79;

/// The HTTPS port of the web server. It is the TLS web port and stays as it is.
pub const NGINX_PORT: u16 = 443;

/// The internal port of the DNS-over-HTTPS resolver, behind Nginx.
pub const UNBOUND_PORT: u16 = 444;

/// The internal port of the 3x-ui panel, behind Nginx.
pub const UI_PORT: u16 = 400;

/// The internal port of the 3x-ui subscription service, behind Nginx.
pub const SUB_PORT: u16 = 401;

/// The port at which an unprovisioned server is expected to serve SSH.
pub const ANSIBLE_PORT: u16 = 22;

/// The subdomain of the DNS-over-HTTPS server, where none is given.
pub const DNS_SUBDOMAIN: &'static str = "dns";

/// The subdomain of the panel, where none is given.
pub const UI_SUBDOMAIN: &'static str = "ui";

/// The subdomain of the subscription server, where none is given.
pub const SUB_SUBDOMAIN: &'static str = "sub";

/// The user agent of all contacts.
pub const XCPLANE_AGENT: &'static str = "xcplane/0.1.0";

/// The remote Ansible user.
pub const ROOT_USER: &'static str = "root";

/// The path to the Xray binary with which inbounds are tested.
pub const XRAY_BIN: &'static str = "/usr/local/bin/xray";

/// The path to the GeoIP data file of Xray.
pub const XRAY_GEOIP: &'static str = "/usr/local/bin/geoip.dat";

/// The path to the GeoSite data file of Xray.
pub const XRAY_GEOSITE: &'static str = "/usr/local/bin/geosite.dat";

/// The first local port that is given to the test of an Xray inbound.
pub const PROXY_START_PORT: u16 = 10_000;

/// A SOCKS address through which SSH and Nginx can be tested.
pub const SOCKS_ADDR: &'static str = "127.0.0.1:10808";

/// Endpoints which return the caller's IPv4 address as text.
pub const IPV4_ENDPOINTS: [&'static str; 4] = [
    "https://api.ipify.org",
    "https://v4.ident.me",
    "https://ipv4.icanhazip.com",
    "https://whatismyip.akamai.com",
];

/// Endpoints which return the caller's IPv6 address as text.
pub const IPV6_ENDPOINTS: [&'static str; 4] = [
    "https://api6.ipify.org",
    "https://v6.ident.me",
    "https://ipv6.icanhazip.com",
    "https://whatismyip.akamai.com",
];

/// Cloudflare's TLS ports. Where the inbound ports of a server are all among
/// them, the server can be closed to all but Cloudflare.
pub const CLOUDFLARE_SPORTS: [u16; 5] = [2053, 2083, 2087, 2096, 8443];

/// The directory of the Ansible files. The dash keeps it apart from the
/// directories of servers.
pub const ANSIBLE_DIR: &'static str = "Ansible-Files/0.1.0";

/// The playbook which runs the tasks of an Ansible run.
pub const MASTER_PLAYBOOK: &'static str = "master_playbook.yaml";

pub const FULL_SETUP: &'static str = "full_setup.yaml";
pub const BASE_SETUP: &'static str = "base_setup.yaml";
pub const BASICS: &'static str = "basics_install.yaml";
pub const DNS_RESET: &'static str = "dns_reset.yaml";
pub const CF_ZONE: &'static str = "cf_getzone.yaml";
pub const CLOUDFLARE_DEL: &'static str = "cloudflare_del.yaml";
pub const CLOUDFLARE: &'static str = "cloudflare_setup.yaml";
pub const ACME: &'static str = "acme_get_cert.yaml";
pub const SSH_SETUP: &'static str = "ssh_setup.yaml";
pub const NGINX_SETUP: &'static str = "nginx_setup.yaml";
pub const DOH_SETUP: &'static str = "doh_setup.yaml";
pub const BOOTSTRAP: &'static str = "bootstrap.yaml";
pub const FAIL2BAN: &'static str = "fail2ban_setup.yaml";
pub const FIREWALL: &'static str = "firewall.yaml";
pub const FIREWALL_BOOTSTRAP: &'static str = "firewall_bootstrap.yaml";
pub const OUTBLOCKED_UPDATE: &'static str = "outblocked_update.yaml";
pub const XUI_LOGIN: &'static str = "xui_login.yaml";
pub const XUI_AUTH: &'static str = "xui_auth.yaml";
pub const PANEL_SETTINGS: &'static str = "xui_setup_panel.yaml";
pub const ADD_INBOUND: &'static str = "xui_add_inbound.yaml";
pub const DEL_INBOUND: &'static str = "xui_del_inbound.yaml";
pub const PORTS_CHECK: &'static str = "check_ports.yaml";
pub const DESTROY_SERVER: &'static str = "destroy_server.yaml";

pub const NGINX_FIX1: &'static str = "nginx_restart.yaml";
pub const NGINX_FIX2: &'static str = "nginx_restore_config.yaml";
pub const XRAY_FIX1: &'static str = "xui_restart.yaml";
pub const XRAY_FIX2: &'static str = "xui_restore_db.yaml";

/// The name of the cloud configuration file.
pub const CLOUD_CONFIG: &'static str = "cloud.toml";

/// The name of the example configuration, written in the first run.
pub const CLOUD_EXAMPLE_NAME: &'static str = "cloud-example-0.1.0.toml";

/// The name of the database which holds the cloud.
pub const CLOUD_DB: &'static str = "cloud.db";

/// The name of the database which holds the GeoIP data.
pub const GEOIP_DB: &'static str = "geoip.db";

/// The directory of cloud backups. The dash keeps it apart from the directories
/// of servers.
pub const CLOUD_BACKUP_DIR: &'static str = "Cloud-Backups";

/// The directory of panel database backups. The dash keeps it apart from the
/// directories of servers.
pub const XUI_BACKUP_DIR: &'static str = "Xui-Backups";

/// The suffix of the file with the sublinks of the clients of an inbound.
pub const SUBLINKS_SUFFIX: &'static str = "_sublinks.txt";

/// The suffix of the file with the JSON sublinks of the clients of an inbound.
pub const JSON_SUBLINKS_SUFFIX: &'static str = "_json_sublinks.txt";

/// How many panel database backups of a server are kept: about three days of
/// one a minute.
pub const RETAINED_XUI_DBNUM: usize = 4320;

/// The file with the Cloudflare API token.
pub const CF_AUTH: &'static str = "cf-auth.toml";

/// The Ansible configuration that all Ansible calls use.
pub const ANSIBLE_CFG: &'static str = "ansible_min.cfg";

/// The seconds between two checks of a service, where nothing is given.
pub const SVC_MON_INTERVAL: u64 = 60;

/// The seconds that a check of a service may take.
pub const SVC_TIMEOUT: u64 = 7;

/// The least seconds between two checks of a service: three times
/// `SVC_TIMEOUT`.
pub const MIN_MON_INTERVAL: u64 = 21;

/// The socket of the daemon.
pub const SOCKET_NAME: &'static str = "xcplane.sock";

/// The PID file of the daemon.
pub const PID_NAME: &'static str = "xcplane.pid";

pub const EXIT_OK: i8 = 0;
pub const EXIT_ERROR: i8 = 1;
pub const EXIT_RESTART: i8 = 20;
pub const EXIT_RELOAD: i8 = 21;
pub const EXIT_REMAP: i8 = 22;
pub const EXIT_REBASE: i8 = 23;

/// How many checks in a row must fail before a repair is tried, where nothing
/// is given.
pub const FIX_THRESHOLD: u64 = 10;

/// The characters of generated user names.
pub const ALPHABET: &'static str = "abcdefghijklmnopqrstuvwxyzABCDEFGHIJKLMNOPQRSTUVWXYZ0123456789";

pub fn default_ssh_port() -> (r: u16)
    ensures
        r == SSH_PORT,
        r == 79,
{
    SSH_PORT
}

pub fn default_dns_subdomain() -> (r: String)
    ensures
        r@ == DNS_SUBDOMAIN@,
        r@ == "dns"@,
{
    DNS_SUBDOMAIN.to_owned()
}

pub fn default_ui_subdomain() -> (r: String)
    ensures
        r@ == UI_SUBDOMAIN@,
        r@ == "ui"@,
{
    UI_SUBDOMAIN.to_owned()
}

pub fn default_sub_subdomain() -> (r: String)
    ensures
        r@ == SUB_SUBDOMAIN@,
        r@ == "sub"@,
{
    SUB_SUBDOMAIN.to_owned()
}

pub fn default_true() -> (r: bool)
    ensures
        r,
{
    true
}

pub fn default_mon_interval() -> (r: u64)
    ensures
        r == SVC_MON_INTERVAL,
        r == 60,
{
    SVC_MON_INTERVAL
}

pub fn default_threshold() -> (r: u64)
    ensures
        r == FIX_THRESHOLD,
        r == 10,
{
    FIX_THRESHOLD
}

/// The regions to which traffic is blocked where none are declared, by their
/// two-letter codes.
pub fn default_outbound_block() -> (r: Vec<String>)
    ensures
        crate::text::texts(r@) == seq!["CN"@, "IR"@, "RU"@],
{
    let mut v: Vec<String> = Vec::new();
    v.push("CN".to_owned());
    v.push("IR".to_owned());
    v.push("RU".to_owned());
    assert(crate::text::texts(v@) =~= seq!["CN"@, "IR"@, "RU"@]);
    v
}

} // verus!
