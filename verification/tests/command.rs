use duniter_node_manager::command::{
    node_logs_line, read_config_line, report_failure, report_node_logs, report_program,
    report_services, start_node_line, stop_node_line, write_config_line,
};

#[test]
fn command_lines_are_exact() {
    assert_eq!(
        node_logs_line("s1"),
        "journalctl -ru duniter-s1.service -u distance-oracle -n 100"
    );
    assert_eq!(start_node_line("s1"), "sudo systemctl start duniter-s1.service");
    assert_eq!(stop_node_line("s1"), "sudo systemctl stop duniter-s1.service");
    assert_eq!(start_node_line(""), "sudo systemctl start duniter-.service");
    assert_eq!(read_config_line(), "sudo cat /etc/duniter/env_file");
}

#[test]
fn write_config_line_carries_the_trimmed_text_unescaped() {
    assert_eq!(write_config_line(" A=1 \n"), "echo \"A=1\" | sudo tee /etc/duniter/env_file");
    assert_eq!(write_config_line(""), "echo \"\" | sudo tee /etc/duniter/env_file");
    assert_eq!(
        write_config_line("A=\"x\" $HOME"),
        "echo \"A=\"x\" $HOME\" | sudo tee /etc/duniter/env_file"
    );
}

#[test]
fn reports_are_exact() {
    assert_eq!(report_program(""), "No duniter on the system");
    assert_eq!(report_program("/usr/bin/duniter2\n"), "Duniter detected at /usr/bin/duniter2\n");
    assert_eq!(report_services(""), "\nNo duniter services on the system");
    assert_eq!(report_services("a.service\n"), "\nDuniter services detected at a.service\n");
    assert_eq!(report_node_logs("log"), "\nlog");
    assert_eq!(report_node_logs(""), "\n");
    assert_eq!(report_failure("Identity not found"), "Failed to open session: Identity not found");
    assert_eq!(report_failure(""), "Failed to open session: ");
}
