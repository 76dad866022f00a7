//! The shell commands that the operations send to the remote host, and the
//! texts that they show of what came back.

use vstd::prelude::*;
use vstd::string::*;
use crate::trim::{all_whitespace, lemma_trim_padded, trim, trimmed};

verus! {

/// The file on the remote host that holds the node's configuration.
pub open spec fn config_path() -> Seq<char> {
    "/etc/duniter/env_file"@
}

/// Asks where the node's program is installed.
pub open spec fn probe_program_command() -> Seq<char> {
    "command -v duniter2"@
}

/// Asks which of the node's services systemd knows.
pub open spec fn probe_services_command() -> Seq<char> {
    "systemctl list-unit-files | grep -iE 'duniter|distance-oracle'"@
}

/// Asks for the last hundred log lines of the node of the given type and of
/// the oracle, newest first.
pub open spec fn node_logs_command(node_type: Seq<char>) -> Seq<char> {
    "journalctl -ru duniter-"@ + node_type + ".service -u distance-oracle -n 100"@
}

/// Asks for the last hundred log lines of the oracle, newest first.
pub open spec fn oracle_logs_command() -> Seq<char> {
    "journalctl -ru distance-oracle -n 100"@
}

/// Starts the node of the given type.
pub open spec fn start_node_command(node_type: Seq<char>) -> Seq<char> {
    "sudo systemctl start duniter-"@ + node_type + ".service"@
}

/// Stops the node of the given type.
pub open spec fn stop_node_command(node_type: Seq<char>) -> Seq<char> {
    "sudo systemctl stop duniter-"@ + node_type + ".service"@
}

/// Starts the oracle.
pub open spec fn start_oracle_command() -> Seq<char> {
    "sudo systemctl start distance-oracle.service"@
}

/// Stops the oracle.
pub open spec fn stop_oracle_command() -> Seq<char> {
    "sudo systemctl stop distance-oracle.service"@
}

/// Prints the configuration file.
pub open spec fn read_config_command() -> Seq<char> {
    "sudo cat "@ + config_path()
}

/// What stands in a `write_config_command` before the configuration.
pub open spec fn write_config_head() -> Seq<char> {
    "echo \""@
}

/// What stands in a `write_config_command` behind the configuration.
pub open spec fn write_config_tail() -> Seq<char> {
    "\" | sudo tee "@ + config_path()
}

/// Writes the trimmed `text` to the configuration file. The text goes into
/// the command as it is: nothing in it is escaped for the shell.
pub open spec fn write_config_command(text: Seq<char>) -> Seq<char> {
    write_config_head() + trim(text) + write_config_tail()
}

/// The configuration that a `write_config_command` carries between its
/// head and its tail.
pub open spec fn written_config(command: Seq<char>) -> Seq<char> {
    command.subrange(
        write_config_head().len() as int,
        command.len() - write_config_tail().len(),
    )
}

/// What is shown of the answer to `probe_program_command`.
pub open spec fn program_report(found: Seq<char>) -> Seq<char> {
    if found.len() == 0 {
        "No duniter on the system"@
    } else {
        "Duniter detected at "@ + found
    }
}

/// What is shown, on a line of its own, of the answer to
/// `probe_services_command`.
pub open spec fn services_report(found: Seq<char>) -> Seq<char> {
    if found.len() == 0 {
        "\nNo duniter services on the system"@
    } else {
        "\nDuniter services detected at "@ + found
    }
}

/// What is shown of the node's log: the log behind a line break.
pub open spec fn node_logs_report(log: Seq<char>) -> Seq<char> {
    "\n"@ + log
}

/// The configuration that is kept of what the remote host printed.
pub open spec fn config_report(printed: Seq<char>) -> Seq<char> {
    trim(printed)
}

/// What is shown when an operation fails.
pub open spec fn failure_report(detail: Seq<char>) -> Seq<char> {
    "Failed to open session: "@ + detail
}

/// A configuration that was written is read back as it was written, trimmed:
/// whatever whitespace the remote host puts around what the command carries
/// (the line break that `echo` adds), the configuration kept of it is the
/// trimmed text.
pub proof fn lemma_config_round_trip(text: Seq<char>, lead: Seq<char>, trail: Seq<char>)
    requires
        all_whitespace(lead),
        all_whitespace(trail),
    ensures
        written_config(write_config_command(text)) == trim(text),
        config_report(lead + written_config(write_config_command(text)) + trail) == trim(text),
{
    let h = write_config_head();
    let t = write_config_tail();
    let c = write_config_command(text);
    assert(c.subrange(h.len() as int, c.len() - t.len()) =~= trim(text));
    lemma_trim_padded(lead, text, trail);
}

/// The command `node_logs_command` for `node_type`.
pub fn node_logs_line(node_type: &str) -> (r: String)
    ensures
        r@ == node_logs_command(node_type@),
{
    let mut r = "journalctl -ru duniter-".to_owned();
    r.append(node_type);
    r.append(".service -u distance-oracle -n 100");
    r
}

/// The command `start_node_command` for `node_type`.
pub fn start_node_line(node_type: &str) -> (r: String)
    ensures
        r@ == start_node_command(node_type@),
{
    let mut r = "sudo systemctl start duniter-".to_owned();
    r.append(node_type);
    r.append(".service");
    r
}

/// The command `stop_node_command` for `node_type`.
pub fn stop_node_line(node_type: &str) -> (r: String)
    ensures
        r@ == stop_node_command(node_type@),
{
    let mut r = "sudo systemctl stop duniter-".to_owned();
    r.append(node_type);
    r.append(".service");
    r
}

/// The command `read_config_command`.
pub fn read_config_line() -> (r: String)
    ensures
        r@ == read_config_command(),
{
    let mut r = "sudo cat ".to_owned();
    r.append("/etc/duniter/env_file");
    r
}

/// The command `write_config_command` for `text`.
pub fn write_config_line(text: &str) -> (r: String)
    ensures
        r@ == write_config_command(text@),
{
    let mut r = "echo \"".to_owned();
    let t = trimmed(text);
    r.append(t.as_str());
    r.append("\" | sudo tee ");
    r.append("/etc/duniter/env_file");
    assert(r@ =~= write_config_command(text@));
    r
}

/// The text `program_report` of `found`.
pub fn report_program(found: &str) -> (r: String)
    ensures
        r@ == program_report(found@),
{
    if found.is_empty() {
        "No duniter on the system".to_owned()
    } else {
        let mut r = "Duniter detected at ".to_owned();
        r.append(found);
        r
    }
}

/// The text `services_report` of `found`.
pub fn report_services(found: &str) -> (r: String)
    ensures
        r@ == services_report(found@),
{
    if found.is_empty() {
        "\nNo duniter services on the system".to_owned()
    } else {
        let mut r = "\nDuniter services detected at ".to_owned();
        r.append(found);
        r
    }
}

/// The text `node_logs_report` of `log`.
pub fn report_node_logs(log: &str) -> (r: String)
    ensures
        r@ == node_logs_report(log@),
{
    let mut r = "\n".to_owned();
    r.append(log);
    r
}

/// The text `failure_report` of `detail`.
pub fn report_failure(detail: &str) -> (r: String)
    ensures
        r@ == failure_report(detail@),
{
    let mut r = "Failed to open session: ".to_owned();
    r.append(detail);
    r
}

} // verus!
