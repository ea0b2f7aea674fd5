use workbench::autocomplete::{email_completion, email_suggestions};
use workbench::cli::{dispatch_command, Cli, CommandAction, Commands};
use workbench::closures::{workout_decision, WorkoutStep};
use workbench::hello::MyHelloService;
use workbench::http::{build_response, route_request, str_eq, u64_to_decimal};
use workbench::logging::{sanitize_log_record, shave_the_yak, LogLevel, RedactingFormatter};
use workbench::process::{kill_plan, matched_by_name, parse_port_listing, KillStep, ProcessEntry};
use workbench::text::parse_u32;
use workbench::redact::{desensitization, mask_ip, mask_phone};

#[test]
fn test_type() {
    let value = Some(10);

    let is_some = value.is_some();
    assert_eq!(is_some, true);

    let data = value.unwrap();
    let data2 = value.expect("no value to take");

    println!("{:?} {} {}", value, data, data2);

    if let Some(data3) = value {
        println!("data3 is {}", data3);
    }
    match value {
        Some(data4) => {
            println!("data2 is {}", data4)
        }
        None => {
            println!("data2 is None")
        }
    }
    let value = Some(10);
    let data5 = if value.is_some() { value.unwrap() } else { 0 };
    println!("data5 is {}", data5);

    let data6 = value.map(|x| x * 2);
    println!("data6 is {:?}", data6);
    assert_eq!(data6, Some(20));

    let data7 = value.ok_or("nothing there");
    println!("data7 is {:?}", data7);
    let data8 = value.ok_or_else(|| "nothing there");
    println!("data8 is {:?}", data8);

    let data9 = value.and(Some(99));
    println!("data9 is {:?}", data9);
    assert_eq!(data9, Some(99));

    let value: Option<i32> = None;
    let data10 = value.and(Some(199));
    println!("data10 is {:?}", data10);
    assert_eq!(data10, None);

    let value = Some(999);
    let data11 = value.and_then(|x| if x > 100 { Some(x) } else { None });
    println!("data11 is {:?}", data11);
    assert_eq!(data11, Some(999));

    let value2: Option<i32> = None;
    let data12 = value2.unwrap_or_else(|| 88);
    println!("data12 is {:?}", data12);
    assert_eq!(data12, 88);
}

#[test]
fn hello_message_greets_by_name() {
    let service = MyHelloService;
    assert_eq!(service.hello_message("world"), "Hello, world!");
    assert_eq!(service.hello_message(""), "Hello, !");
}

#[test]
fn routing_matches_known_paths() {
    let route = route_request("GET / HTTP/1.1");
    assert_eq!(route.status_line, "HTTP/1.1 200 OK");
    assert_eq!(route.filename, "hello.html");
    assert!(!route.slow);

    let route = route_request("GET /sleep HTTP/1.1");
    assert_eq!(route.status_line, "HTTP/1.1 200 OK");
    assert_eq!(route.filename, "hello.html");
    assert!(route.slow);

    let route = route_request("GET /missing HTTP/1.1");
    assert_eq!(route.status_line, "HTTP/1.1 404 NOT FOUND");
    assert_eq!(route.filename, "404.html");
    assert!(!route.slow);
}

#[test]
fn response_carries_length_and_body() {
    let response = build_response("HTTP/1.1 200 OK", "<p>hi</p>");
    assert_eq!(response, "HTTP/1.1 200 OK\r\nContent-Length: 9\r\n\r\n<p>hi</p>");
    let response = build_response("HTTP/1.1 200 OK", "");
    assert_eq!(response, "HTTP/1.1 200 OK\r\nContent-Length: 0\r\n\r\n");
}

#[test]
fn decimal_rendering_is_exact() {
    assert_eq!(u64_to_decimal(0), "0");
    assert_eq!(u64_to_decimal(7), "7");
    assert_eq!(u64_to_decimal(105), "105");
    assert_eq!(u64_to_decimal(18446744073709551615), "18446744073709551615");
}

#[test]
fn str_eq_compares_characters() {
    assert!(str_eq("abc", "abc"));
    assert!(!str_eq("abc", "abd"));
    assert!(!str_eq("abc", "ab"));
    assert!(str_eq("", ""));
}

#[test]
fn dispatch_splits_kill_targets() {
    let cli = Cli {
        command: Commands::Kill {
            port_or_program_name: String::from("5500,chrome"),
        },
    };
    match dispatch_command(cli) {
        CommandAction::Kill { targets } => {
            assert_eq!(targets, vec!["5500", "chrome"]);
        }
        _ => panic!("expected a kill action"),
    }

    let cli = Cli {
        command: Commands::Hello {
            name: String::from("bob"),
        },
    };
    match dispatch_command(cli) {
        CommandAction::Hello { name } => assert_eq!(name, "bob"),
        _ => panic!("expected a hello action"),
    }

    let cli = Cli {
        command: Commands::Inquire {},
    };
    assert!(matches!(dispatch_command(cli), CommandAction::Inquire));

    let cli = Cli {
        command: Commands::Kill {
            port_or_program_name: String::from("a,,b"),
        },
    };
    match dispatch_command(cli) {
        CommandAction::Kill { targets } => assert_eq!(targets, vec!["a", "", "b"]),
        _ => panic!("expected a kill action"),
    }
}

#[test]
fn workout_decision_follows_the_rules() {
    assert!(matches!(workout_decision(30, 3), WorkoutStep::Announcement));
    assert!(matches!(workout_decision(10, 3), WorkoutStep::Exercise));
    assert!(matches!(workout_decision(30, 4), WorkoutStep::Rest));
}

#[test]
fn matched_by_name_filters_process_table() {
    let table = vec![
        ProcessEntry { pid: 10, name: String::from("Google Chrome") },
        ProcessEntry { pid: 11, name: String::from("firefox") },
        ProcessEntry { pid: 12, name: String::from("chrome_helper") },
    ];
    let matched = matched_by_name(&table, "chrome");
    assert_eq!(matched.len(), 1);
    assert_eq!(matched[0].pid, 12);
    assert_eq!(matched[0].name, "chrome_helper");
    assert_eq!(matched[0].port, 0);
}

#[test]
fn parse_u32_mirrors_std_parse() {
    assert_eq!(parse_u32("0"), Some(0));
    assert_eq!(parse_u32("007"), Some(7));
    assert_eq!(parse_u32("+42"), Some(42));
    assert_eq!(parse_u32("4294967295"), Some(u32::MAX));
    assert_eq!(parse_u32("4294967296"), None);
    assert_eq!(parse_u32(""), None);
    assert_eq!(parse_u32("+"), None);
    assert_eq!(parse_u32("12a"), None);
    assert_eq!(parse_u32("99999999999999999999"), None);
    for s in ["0", "007", "+42", "4294967295", "4294967296", "", "+", "12a"] {
        assert_eq!(parse_u32(s), s.parse::<u32>().ok());
    }
}

#[test]
fn port_listing_parses_like_the_kill_loop() {
    let output = "COMMAND PID\nnode  4242 more columns\nnode  4242\nnginx 80\n";
    let programs = parse_port_listing(output, 5500).unwrap();
    assert_eq!(programs.len(), 2);
    assert_eq!(programs[0].name, "node");
    assert_eq!(programs[0].pid, 4242);
    assert_eq!(programs[0].port, 5500);
    assert_eq!(programs[1].name, "nginx");
    assert_eq!(programs[1].pid, 80);

    assert!(parse_port_listing("", 1).unwrap().is_empty());
    assert!(parse_port_listing("onlyonecolumn", 1).is_none());
    assert!(parse_port_listing("node abc", 1).is_none());
}

#[test]
fn kill_plan_splits_ports_from_names() {
    let plan = kill_plan(vec![String::from("5500"), String::from("chrome"), String::from("70000")]);
    assert_eq!(plan.len(), 3);
    assert!(matches!(plan[0], KillStep::LookUpPort { port: 5500 }));
    assert!(matches!(&plan[1], KillStep::MatchByName { query } if query == "chrome"));
    assert!(matches!(&plan[2], KillStep::MatchByName { query } if query == "70000"));
}

#[test]
fn email_autocomplete_suggests_and_completes() {
    let emails = vec![
        String::from("a@qq.com"),
        String::from("az@qq.com"),
        String::from("b@qq.com"),
        String::from("c@qq.com"),
    ];
    let suggestions = email_suggestions(&emails, "aq");
    assert_eq!(suggestions.len(), 2);
    assert!(suggestions[0].contains("\x1b[31m"));

    let completion = email_completion(&emails, "aq", None);
    assert_eq!(completion, Some(String::from("a@qq.com")));

    let completion = email_completion(&emails, "aq", Some(String::from("picked")));
    assert_eq!(completion, Some(String::from("picked")));

    let completion = email_completion(&emails, "zzz", None);
    assert_eq!(completion, None);
}

#[test]
fn yak_shaving_logs_four_records() {
    let records = shave_the_yak();
    assert_eq!(records.len(), 4);
    assert_eq!(records[0], (LogLevel::Trace, String::from("Commencing yak shaving")));
    assert_eq!(records[1], (LogLevel::Info, String::from("Yak shaving")));
    assert_eq!(
        records[2],
        (LogLevel::Warn, String::from("You've been yaking on my false positive team"))
    );
    assert_eq!(
        records[3],
        (LogLevel::Error, String::from("You've been yaking on my true positive team"))
    );
}

#[test]
fn masking_stars_out_personal_data() {
    assert_eq!(mask_phone("13312341234"), "133****1234");
    assert_eq!(mask_phone("call 13312341234 now"), "call 133****1234 now");
    assert_eq!(mask_phone("1331234123"), "1331234123");
    assert_eq!(mask_ip("127.0.0.1"), "127.***.***.1");
    assert_eq!(mask_ip("ip is 10.20.30.40!"), "ip is 10.***.***.40!");
    assert_eq!(mask_ip("1.2.3"), "1.2.3");
    assert_eq!(
        desensitization("user phone number is 13312341234,ip address is 127.0.0.1"),
        "user phone number is 133****1234,ip address is 127.***.***.1"
    );
}

#[test]
fn sanitizing_runs_both_masks() {
    assert_eq!(
        sanitize_log_record("reach me at 13312341234 or 192.168.1.10"),
        "reach me at 133****1234 or 192.***.***.10"
    );
    let formatter = RedactingFormatter;
    assert_eq!(formatter.format_event("from 8.8.8.8"), "from 8.***.***.8");
}
