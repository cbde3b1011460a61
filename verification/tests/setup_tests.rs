use muscl::muscl_core::bootstrap::{
    choose_internal_server_config, choose_socket, connect_error_message,
    will_connect_to_external_server, ConfigChoice, ConnectFailure, ServerSituation, SocketChoice,
};
use muscl::muscl_core::completion::prefix_completions;
use muscl::muscl_core::config::{get_config, Config, GlobalConfigArgs, MysqlConfig};
use muscl::muscl_core::database_privileges::base::{
    db_priv_field_human_readable_name, db_priv_field_single_character_name, DatabasePrivilegeRow,
};
use muscl::muscl_core::types::{DbOrUser, MySQLDatabase, MySQLUser};

fn situation(socket: bool, config: bool, default_socket: bool, default_config: bool, suid: bool) -> ServerSituation {
    ServerSituation {
        socket_path_given: socket,
        config_path_given: config,
        default_socket_exists: default_socket,
        default_config_exists: default_config,
        suid_sgid_mode: suid,
    }
}

#[test]
fn external_server_choice() {
    assert_eq!(will_connect_to_external_server(situation(true, true, false, true, true)), Ok(true));
    assert_eq!(will_connect_to_external_server(situation(false, true, true, false, true)), Ok(false));
    assert_eq!(will_connect_to_external_server(situation(false, true, true, false, false)), Ok(true));
    assert_eq!(will_connect_to_external_server(situation(false, false, false, true, true)), Ok(false));
    assert_eq!(
        will_connect_to_external_server(situation(false, false, false, true, false)),
        Err("No socket path provided, and no default socket found".to_string())
    );
    assert_eq!(
        will_connect_to_external_server(situation(false, false, false, false, true)),
        Err("No socket path or config path provided, and no default socket or config found".to_string())
    );
}

#[test]
fn socket_and_config_choices() {
    assert_eq!(choose_socket(true, false), Ok(SocketChoice::Given));
    assert_eq!(choose_socket(false, true), Ok(SocketChoice::Default));
    assert!(choose_socket(false, false).is_err());
    assert_eq!(connect_error_message(ConnectFailure::NotFound, "x"), "Socket not found");
    assert_eq!(connect_error_message(ConnectFailure::PermissionDenied, "x"), "Permission denied");
    assert_eq!(connect_error_message(ConnectFailure::Other, "boom"), "Failed to connect to socket: boom");
    assert_eq!(choose_internal_server_config(true, true, false, true), Ok(ConfigChoice::Given));
    assert_eq!(
        choose_internal_server_config(true, true, false, false),
        Err("Executable is not SUID/SGID - refusing to start internal sever".to_string())
    );
    assert_eq!(
        choose_internal_server_config(true, false, true, true),
        Err("Config file not found or not readable".to_string())
    );
    assert_eq!(choose_internal_server_config(false, false, true, true), Ok(ConfigChoice::Default));
    assert_eq!(
        choose_internal_server_config(false, false, false, true),
        Err("No config path provided, and no default config found".to_string())
    );
}

#[test]
fn command_line_overrides_configuration() {
    let file = Config {
        mysql: MysqlConfig {
            host: "db.example".to_string(),
            port: Some(3307),
            username: "muscl".to_string(),
            password: "secret".to_string(),
            timeout: None,
        },
    };
    let args = GlobalConfigArgs {
        config_file: "/etc/muscl/config.toml".to_string(),
        mysql_host: Some("localhost".to_string()),
        mysql_port: None,
        mysql_user: None,
        mysql_password_file: Some("/run/pw".to_string()),
        mysql_connect_timeout: Some(5),
    };
    let c = get_config(&args, &file, Some("  hunter2\n"));
    assert_eq!(c.mysql.host, "localhost");
    assert_eq!(c.mysql.port, Some(3307));
    assert_eq!(c.mysql.username, "muscl");
    assert_eq!(c.mysql.password, "hunter2");
    assert_eq!(c.mysql.timeout, Some(5));
    assert_eq!(c.mysql.connection_port(), 3307);
    assert_eq!(c.mysql.connection_timeout(), 5);
    let plain = GlobalConfigArgs {
        config_file: String::new(),
        mysql_host: None,
        mysql_port: None,
        mysql_user: None,
        mysql_password_file: None,
        mysql_connect_timeout: None,
    };
    let d = get_config(&plain, &file, None);
    assert_eq!(d.mysql.password, "secret");
    assert_eq!(d.mysql.connection_timeout(), 2);
    let mut no_port = d;
    no_port.mysql.port = None;
    assert_eq!(no_port.mysql.connection_port(), 3306);
}

#[test]
fn completions_end_with_underscore() {
    assert_eq!(prefix_completions(&["alice".to_string(), "staff".to_string()]), vec!["alice_".to_string(), "staff_".to_string()]);
}

#[test]
fn field_names() {
    assert_eq!(db_priv_field_human_readable_name("Db"), "Database");
    assert_eq!(db_priv_field_human_readable_name("create_tmp_table_priv"), "Temp");
    assert_eq!(db_priv_field_human_readable_name("bogus"), "Unknown(bogus)");
    assert_eq!(db_priv_field_single_character_name("drop_priv"), "D");
    assert_eq!(db_priv_field_single_character_name("bogus"), "?");
    let r = DatabasePrivilegeRow::from_privileges(MySQLDatabase::from("d"), MySQLUser::from("u"), &[true; 11]);
    assert_eq!(r.get_privilege_by_name("lock_tables_priv"), Some(true));
    assert_eq!(r.get_privilege_by_name("Db"), None);
    assert!(r.to_display_string().starts_with("Select: Y\nInsert: Y\n"));
}

#[test]
fn names_and_nouns() {
    let d = DbOrUser::Database(MySQLDatabase::from("alice_db"));
    let u = DbOrUser::User(MySQLUser::from("plain"));
    assert_eq!(d.lowercased_noun(), "database");
    assert_eq!(u.capitalized_noun(), "User");
    assert_eq!(d.lowercased(), "database");
    assert_eq!(u.capitalized(), "User");
    assert_eq!(d.name(), "alice_db");
    assert_eq!(d.prefix(), "alice");
    assert_eq!(u.prefix(), "plain");
    assert_eq!(MySQLUser::from("ab").to_display_string(Some(4)), "ab  ");
    assert_eq!(MySQLDatabase::from("ab").to_display_string(None), "ab");
    let parsed: MySQLUser = "x".parse().unwrap();
    assert_eq!(parsed, MySQLUser::from("x"));
}
