//! How a node finds its name, its files and its way to the others.

use vstd::prelude::*;
use vstd::string::*;
use crate::ipc::{first_line_in, law_a_line_is_one_line};
use crate::text::{
    chars_of, decimal, decimal_text, is_digit, lemma_decimal_reads_back, lemma_trimmed_identity,
    parse_trimmed_u16, parsed_number, same, trim, trimmed,
};

verus! {

/// The port on which nodes tell the local network of themselves.
pub const DISCOVERY_PORT: u16 = 8888;

/// The most bytes that a packet of the local network is read for.
pub const PACKET_BYTES: usize = 1024;

/// The seconds between two announcements to the local network.
pub const ANNOUNCE_SECONDS: u64 = 5;

/// The seconds that a client waits before it looks for the daemon again.
pub const RETRY_SECONDS: u64 = 2;

/// The name of a node: the first that is given, of the one set for it, the one set for the
/// machine, and the machine's own.
pub open spec fn node_name(
    node_name: Option<Seq<char>>,
    hostname: Option<Seq<char>>,
    machine: Option<Seq<char>>,
) -> Seq<char> {
    match (node_name, hostname, machine) {
        (Some(n), _, _) => n,
        (None, Some(h), _) => h,
        (None, None, Some(m)) => m,
        (None, None, None) => "Unknown"@,
    }
}

/// The name of a node.
pub fn choose_node_name(
    node: Option<String>,
    hostname: Option<String>,
    machine: Option<String>,
) -> (r: String)
    ensures
        r@ == node_name(node.deep_view(), hostname.deep_view(), machine.deep_view()),
{
    match node {
        Some(n) => n,
        None => match hostname {
            Some(h) => h,
            None => match machine {
                Some(m) => m,
                None => "Unknown".to_owned(),
            },
        },
    }
}

/// What a node needs to join a network: the address of the signaling server, and the token.
#[derive(Debug)]
pub struct Pairing {
    pub relay_domain: String,
    pub auth_token: String,
}

/// The pairing of a node, which takes both the address and the token.
pub fn pairing(relay_domain: Option<String>, auth_token: Option<String>) -> (r: Option<Pairing>)
    ensures
        r is Some <==> relay_domain is Some && auth_token is Some,
        r matches Some(p) ==> p.relay_domain@ == relay_domain->0@ && p.auth_token@
            == auth_token->0@,
{
    match (relay_domain, auth_token) {
        (Some(relay_domain), Some(auth_token)) => Some(Pairing { relay_domain, auth_token }),
        _ => None,
    }
}

/// Where the settings of a node are read from.
#[derive(Debug, PartialEq, Eq, Structural)]
pub enum SettingsFile {
    /// The file in the current directory.
    Here,
    /// The file in the directory above.
    Above,
    /// The first such file that is found on the way up.
    Search,
}

/// Where the settings of a node are read from, given whether there is a file in the current
/// directory and in the one above.
pub fn settings_file(here: bool, above: bool) -> (r: SettingsFile)
    ensures
        r == (if here {
            SettingsFile::Here
        } else if above {
            SettingsFile::Above
        } else {
            SettingsFile::Search
        }),
{
    if here {
        SettingsFile::Here
    } else if above {
        SettingsFile::Above
    } else {
        SettingsFile::Search
    }
}

/// Where a file that the programs share lies, seen from a directory: above it, where the
/// directory is the program's own, and else in it.
pub open spec fn shared_file(
    directory: Option<Seq<char>>,
    own: Seq<char>,
    file: Seq<char>,
) -> Seq<char> {
    if directory == Some(own) {
        "../"@ + file
    } else {
        file
    }
}

/// Where a file that the programs share lies, seen from a directory of a given name.
pub fn shared_file_path(directory: Option<&str>, own: &str, file: &str) -> (r: String)
    ensures
        directory matches Some(d) ==> r@ == shared_file(Some(d@), own@, file@),
        directory is None ==> r@ == shared_file(None, own@, file@),
{
    match directory {
        Some(d) => {
            if same(d, own) {
                "../".to_owned().concat(file)
            } else {
                file.to_owned()
            }
        },
        None => file.to_owned(),
    }
}

/// Where the port of the daemon is written down, seen from a directory of a given name.
pub fn ipc_port_file(directory: Option<&str>, own: &str) -> (r: String)
    ensures
        directory matches Some(d) ==> r@ == shared_file(Some(d@), own@, ".ipc_port"@),
        directory is None ==> r@ == shared_file(None, own@, ".ipc_port"@),
{
    shared_file_path(directory, own, ".ipc_port")
}

/// Where a client writes the settings of the node, seen from a directory of a given name.
pub fn settings_path(directory: Option<&str>, own: &str) -> (r: String)
    ensures
        directory matches Some(d) ==> r@ == shared_file(Some(d@), own@, ".env"@),
        directory is None ==> r@ == shared_file(None, own@, ".env"@),
{
    shared_file_path(directory, own, ".env")
}

/// The name of a directory, given the parts of its path.
pub open spec fn name_of(dir: Seq<Seq<char>>) -> Option<Seq<char>> {
    if dir.len() > 0 {
        Some(dir.last())
    } else {
        None
    }
}

/// The file that lies at a place, seen from a directory, as the parts of its path. A way up in
/// front is resolved.
pub open spec fn file_seen_from(dir: Seq<Seq<char>>, place: Seq<char>) -> Seq<Seq<char>> {
    if "../"@.is_prefix_of(place) {
        dir.drop_last().push(place.skip(3))
    } else {
        dir.push(place)
    }
}

/// The programs come to one shared file in their workspace, whether each runs in the workspace or
/// in its own directory below it.
pub proof fn law_programs_share_a_file(
    workspace: Seq<Seq<char>>,
    dir: Seq<Seq<char>>,
    own: Seq<char>,
    file: Seq<char>,
)
    requires
        name_of(workspace) != Some(own),
        dir == workspace || dir == workspace.push(own),
        !"../"@.is_prefix_of(file),
    ensures
        file_seen_from(dir, shared_file(name_of(dir), own, file)) == workspace.push(file),
{
    reveal_strlit("../");
    if dir == workspace.push(own) {
        assert(dir.drop_last() =~= workspace);
        assert("../"@.is_prefix_of("../"@ + file));
        assert(("../"@ + file).skip(3) =~= file);
    }
}

/// Daemon and client come to one file for the port, wherever in their workspace each runs; and
/// the client writes the settings to the file in the workspace.
pub proof fn law_daemon_and_client_share_files(
    workspace: Seq<Seq<char>>,
    daemon_dir: Seq<Seq<char>>,
    client_dir: Seq<Seq<char>>,
)
    requires
        name_of(workspace) != Some("gens-daemon"@),
        name_of(workspace) != Some("gens-gui"@),
        daemon_dir == workspace || daemon_dir == workspace.push("gens-daemon"@),
        client_dir == workspace || client_dir == workspace.push("gens-gui"@),
    ensures
        file_seen_from(
            daemon_dir,
            shared_file(name_of(daemon_dir), "gens-daemon"@, ".ipc_port"@),
        ) == workspace.push(".ipc_port"@),
        file_seen_from(
            client_dir,
            shared_file(name_of(client_dir), "gens-gui"@, ".ipc_port"@),
        ) == workspace.push(".ipc_port"@),
        file_seen_from(
            client_dir,
            shared_file(name_of(client_dir), "gens-gui"@, ".env"@),
        ) == workspace.push(".env"@),
{
    reveal_strlit("../");
    reveal_strlit(".ipc_port");
    reveal_strlit(".env");
    assert("../"@[1] == '.' && ".ipc_port"@[1] == 'i' && ".env"@[1] == 'e');
    law_programs_share_a_file(workspace, daemon_dir, "gens-daemon"@, ".ipc_port"@);
    law_programs_share_a_file(workspace, client_dir, "gens-gui"@, ".ipc_port"@);
    law_programs_share_a_file(workspace, client_dir, "gens-gui"@, ".env"@);
}

/// The settings that pair a node, as they are written into their file.
pub open spec fn settings(domain: Seq<char>, token: Seq<char>) -> Seq<char> {
    "RELAY_DOMAIN="@ + domain + "\nAUTH_TOKEN="@ + token + "\n"@
}

/// The settings that pair a node, as they are written into their file.
pub fn settings_text(domain: &str, token: &str) -> (r: String)
    ensures
        r@ == settings(domain@, token@),
{
    "RELAY_DOMAIN=".to_owned().concat(domain).concat("\nAUTH_TOKEN=").concat(token).concat("\n")
}

/// The addresses to which a node tells of itself.
pub open spec fn announced_at(configured: Option<Seq<char>>) -> Seq<Seq<char>> {
    match configured {
        Some(a) => seq![a],
        None => seq![
            "255.255.255.255:8888"@,
            "192.168.1.255:8888"@,
            "192.168.0.255:8888"@,
            "10.0.0.255:8888"@,
        ],
    }
}

/// The addresses to which a node tells of itself: the one that was set, or else the usual
/// ones.
pub fn announce_addresses(configured: Option<String>) -> (r: Vec<String>)
    ensures
        r.deep_view() == announced_at(configured.deep_view()),
{
    let mut r: Vec<String> = Vec::new();
    match configured {
        Some(a) => {
            r.push(a);
        },
        None => {
            r.push("255.255.255.255:8888".to_owned());
            r.push("192.168.1.255:8888".to_owned());
            r.push("192.168.0.255:8888".to_owned());
            r.push("10.0.0.255:8888".to_owned());
        },
    }
    assert(r.deep_view() =~= announced_at(configured.deep_view()));
    r
}

/// Whether an address to tell of oneself at names a port; without a setting it does.
pub fn names_port(configured: Option<&str>) -> (r: bool)
    ensures
        r == (configured matches Some(a) ==> a@.contains(':')),
{
    match configured {
        Some(a) => {
            let v = chars_of(a);
            let mut i: usize = 0;
            while i < v.len()
                invariant
                    i <= v.len(),
                    v@ == a@,
                    configured == Some(a),
                    forall|k: int| 0 <= k < i ==> v@[k] != ':',
                decreases v.len() - i,
            {
                if v[i] == ':' {
                    assert(a@[i as int] == ':');
                    return true;
                }
                i += 1;
            }
            false
        },
        None => true,
    }
}

/// The address of a daemon that listens on a port of this machine.
pub open spec fn local_address(port: Seq<char>) -> Seq<char> {
    "127.0.0.1:"@ + port
}

/// What the daemon writes down for its clients when it listens on a port.
pub fn port_note(port: u16) -> (r: String)
    ensures
        r@ == decimal(port as nat),
{
    decimal_text(port as u64)
}

/// The address at which a client looks for the daemon, given what was written down for it.
pub open spec fn dialed(note: Option<Seq<char>>) -> Option<Seq<char>> {
    match note {
        Some(n) => match parsed_number(trimmed(n), 65535) {
            Some(port) => Some(local_address(decimal(port))),
            None => None,
        },
        None => None,
    }
}

/// The address at which a client looks for the daemon; none, where no port was written down.
pub fn dial(note: Option<&str>) -> (r: Option<String>)
    ensures
        note matches Some(n) ==> r.deep_view() == dialed(Some(n@)),
        note is None ==> r.deep_view() == dialed(None),
{
    match note {
        Some(n) => match parse_trimmed_u16(n) {
            Some(port) => Some(
                "127.0.0.1:".to_owned().concat(decimal_text(port as u64).as_str()),
            ),
            None => None,
        },
        None => None,
    }
}

/// The address at which the desktop shell looks for the daemon, given what was written down
/// one and two directories above.
pub open spec fn shell_dialed(above: Option<Seq<char>>, further: Option<Seq<char>>) -> Seq<char> {
    match (above, further) {
        (Some(n), _) => local_address(trimmed(n)),
        (None, Some(n)) => local_address(trimmed(n)),
        (None, None) => local_address("61879"@),
    }
}

/// The address at which the desktop shell looks for the daemon.
pub fn shell_dial(above: Option<String>, further: Option<String>) -> (r: String)
    ensures
        r@ == shell_dialed(above.deep_view(), further.deep_view()),
{
    let port = match above {
        Some(n) => trim(n.as_str()),
        None => match further {
            Some(n) => trim(n.as_str()),
            None => "61879".to_owned(),
        },
    };
    "127.0.0.1:".to_owned().concat(port.as_str())
}

/// The programs that are tried in turn to start the daemon, each with its arguments.
pub open spec fn launch(attempt: nat) -> Option<(Seq<char>, Seq<Seq<char>>)> {
    if attempt == 0 {
        Some(("./gens-daemon"@, seq![]))
    } else if attempt == 1 {
        Some(("cargo"@, seq!["run"@, "-p"@, "gens-daemon"@]))
    } else {
        None
    }
}

/// The program that is tried to start the daemon after so many failures, with its arguments.
pub fn launch_attempt(attempt: usize) -> (r: Option<(String, Vec<String>)>)
    ensures
        r is Some <==> launch(attempt as nat) is Some,
        r matches Some((p, a)) ==> launch(attempt as nat) == Some((p@, a.deep_view())),
{
    let mut args: Vec<String> = Vec::new();
    if attempt == 0 {
        assert(args.deep_view() =~= seq![]);
        Some(("./gens-daemon".to_owned(), args))
    } else if attempt == 1 {
        args.push("run".to_owned());
        args.push("-p".to_owned());
        args.push("gens-daemon".to_owned());
        assert(args.deep_view() =~= seq!["run"@, "-p"@, "gens-daemon"@]);
        Some(("cargo".to_owned(), args))
    } else {
        None
    }
}

/// A client that reads the note of a daemon looks for it on the port on which it listens, with
/// or without white space around the note.
pub proof fn law_clients_find_the_daemon(port: u16, note: Seq<char>, further: Option<Seq<char>>)
    requires
        trimmed(note) == trimmed(decimal(port as nat)),
    ensures
        dialed(Some(note)) == Some(local_address(decimal(port as nat))),
        shell_dialed(Some(note), further) == local_address(decimal(port as nat)),
        shell_dialed(None, Some(note)) == local_address(decimal(port as nat)),
{
    let s = decimal(port as nat);
    lemma_decimal_reads_back(port as nat);
    assert(is_digit(s[0]) && is_digit(s[s.len() - 1]));
    lemma_trimmed_identity(s);
}

/// A node goes by the name set for it, else by the one set for the machine, else by the
/// machine's own, else by that of nobody.
pub proof fn law_node_name(
    set: Option<Seq<char>>,
    hostname: Option<Seq<char>>,
    machine: Option<Seq<char>>,
)
    ensures
        set matches Some(n) ==> node_name(set, hostname, machine) == n,
        set is None ==> (hostname matches Some(h) ==> node_name(set, hostname, machine) == h),
        set is None && hostname is None ==> (machine matches Some(m) ==> node_name(
            set,
            hostname,
            machine,
        ) == m),
        set is None && hostname is None && machine is None ==> node_name(set, hostname, machine)
            == "Unknown"@,
{
}

/// The settings are two lines: the address of the server behind its name, and the token behind
/// its own.
pub proof fn law_settings(domain: Seq<char>, token: Seq<char>)
    requires
        forall|i: int| 0 <= i < domain.len() ==> #[trigger] domain[i] != '\n',
        forall|i: int| 0 <= i < token.len() ==> #[trigger] token[i] != '\n',
    ensures
        ({
            let s = settings(domain, token);
            let first = first_line_in(s);
            let rest = s.skip(first.len() as int + 1);
            &&& first == "RELAY_DOMAIN="@ + domain
            &&& first_line_in(rest) == "AUTH_TOKEN="@ + token
            &&& rest.len() == 11 + token.len() + 1
        }),
{
    reveal_strlit("RELAY_DOMAIN=");
    reveal_strlit("\nAUTH_TOKEN=");
    reveal_strlit("AUTH_TOKEN=");
    reveal_strlit("\n");
    let s = settings(domain, token);
    let first = "RELAY_DOMAIN="@ + domain;
    let second = "AUTH_TOKEN="@ + token;
    assert("\nAUTH_TOKEN="@ =~= "\n"@ + "AUTH_TOKEN="@);
    assert(s =~= first + "\n"@ + (second + "\n"@));
    law_a_line_is_one_line(first, second + "\n"@);
    assert(s.skip(first.len() as int + 1) =~= second + "\n"@ + Seq::<char>::empty());
    law_a_line_is_one_line(second, Seq::empty());
}

/// A client looks for the daemon on this machine, at the port that was written down, and nowhere
/// where no port was; the desktop shell takes what was written nearest as it stands, and a fixed
/// port where nothing was.
pub proof fn law_where_clients_look(note: Seq<char>, further: Option<Seq<char>>)
    ensures
        dialed(None) is None,
        parsed_number(trimmed(note), 65535) is None ==> dialed(Some(note)) is None,
        parsed_number(trimmed(note), 65535) matches Some(port) ==> dialed(Some(note)) == Some(
            "127.0.0.1:"@ + decimal(port),
        ),
        shell_dialed(Some(note), further) == "127.0.0.1:"@ + trimmed(note),
        shell_dialed(None, Some(note)) == "127.0.0.1:"@ + trimmed(note),
        shell_dialed(None, None) == "127.0.0.1:"@ + "61879"@,
{
}

/// A node tells of itself at the one address that was set, or at the four usual ones.
pub proof fn law_where_a_node_is_announced(address: Seq<char>)
    ensures
        announced_at(Some(address)) == seq![address],
        announced_at(None).len() == 4,
        announced_at(None)[0] == "255.255.255.255:8888"@,
        announced_at(None)[1] == "192.168.1.255:8888"@,
        announced_at(None)[2] == "192.168.0.255:8888"@,
        announced_at(None)[3] == "10.0.0.255:8888"@,
{
}

/// The daemon is started from its own program, and else by way of the build tool, and then not
/// at all.
pub proof fn law_launching(attempt: nat)
    ensures
        launch(0) matches Some((program, args)) && program == "./gens-daemon"@ && args.len() == 0,
        launch(1) matches Some((program, args)) && program == "cargo"@ && args.len() == 3 && args[0]
            == "run"@ && args[1] == "-p"@ && args[2] == "gens-daemon"@,
        attempt >= 2 ==> launch(attempt) is None,
{
}

/// The settings hold the address and the token as they are, each behind its name and before a
/// line break.
pub proof fn law_text_of_settings(domain: Seq<char>, token: Seq<char>)
    ensures
        settings(domain, token) == "RELAY_DOMAIN="@ + domain + "\nAUTH_TOKEN="@ + token + "\n"@,
{
}

/// A file that the programs share lies one directory up for a program that runs in its own
/// directory, and in the directory itself for any other.
pub proof fn law_where_shared_files_lie(name: Seq<char>, own: Seq<char>, file: Seq<char>)
    ensures
        shared_file(Some(own), own, file) == "../"@ + file,
        name != own ==> shared_file(Some(name), own, file) == file,
        shared_file(None, own, file) == file,
{
}

} // verus!
