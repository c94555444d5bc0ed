use intranet_share::asks::AskRegistry;
use intranet_share::disc::discover::{service_host_name, service_type};
use intranet_share::models::{CusErr, IntranetClientInfo, TransType};
use intranet_share::state::AppState;
use intranet_share::text::{client_name, ipv4_to_text, progress_key, push_decimal, socket_addr_text};
use intranet_share::transfer::jobs::{get_sender_running_number, RunningJobs};
use intranet_share::transfer::models::{MessageTransAccept, MessageTransHandle, ReqTransferData};

fn client(name: &str, ip: &str, port: u16, selected: bool) -> IntranetClientInfo {
    IntranetClientInfo {
        name: name.to_string(),
        ip: ip.to_string(),
        port,
        selected,
        auto_find: true,
    }
}

fn names(s: &AppState) -> Vec<String> {
    s.data_intranet_clients.iter().map(|c| c.name.clone()).collect()
}

#[test]
fn decimal_text() {
    let mut s = String::new();
    push_decimal(&mut s, 0);
    assert_eq!(s, "0");
    let mut s = "x".to_string();
    push_decimal(&mut s, 18446744073709551615);
    assert_eq!(s, "x18446744073709551615");
}

#[test]
fn joins() {
    assert_eq!(socket_addr_text(&"192.168.1.5".to_string(), 8080), "192.168.1.5:8080");
    assert_eq!(socket_addr_text(&"h".to_string(), 0), "h:0");
    assert_eq!(progress_key(&"10.0.0.1:9".to_string(), &"a.txt".to_string()), "10.0.0.1:9_a.txt");
    assert_eq!(client_name(&"laptop".to_string(), 65535), "laptop-65535");
    assert_eq!(ipv4_to_text([192, 168, 0, 10]), "192.168.0.10");
    assert_eq!(ipv4_to_text([0, 0, 0, 0]), "0.0.0.0");
    assert_eq!(service_host_name(&"pc-1".to_string()), "pc-1.local.");
    assert!(service_type().ends_with(".local."));
}

#[test]
fn error_texts() {
    assert_eq!(CusErr::PoisonError.to_string(), "Mutex poison error");
    assert_eq!(CusErr::AnyHowError("boom".to_string()).to_string(), "boom");
    assert_eq!(CusErr::msg("m").to_string(), "m");
}

#[test]
fn add_client_refuses_duplicate_names() {
    let mut s = AppState::new();
    assert!(s.add_client(client("a", "1.1.1.1", 1, false)).is_ok());
    assert!(!s.data_intranet_clients[0].auto_find);
    let e = s.add_client(client("a", "2.2.2.2", 2, true)).unwrap_err();
    assert_eq!(e.to_string(), "已存在同名客户端");
    assert_eq!(s.data_intranet_clients.len(), 1);
    assert_eq!(s.data_intranet_clients[0].ip, "1.1.1.1");
}

#[test]
fn select_and_remove_clients() {
    let mut s = AppState::new();
    s.add_client(client("a", "1.1.1.1", 1, false)).unwrap();
    s.add_client(client("b", "1.1.1.2", 2, false)).unwrap();
    s.selected_client(&"b".to_string(), true);
    assert!(!s.data_intranet_clients[0].selected);
    assert!(s.data_intranet_clients[1].selected);
    s.selected_client(&"zzz".to_string(), true);
    assert!(!s.data_intranet_clients[0].selected);
    s.remove_client(&"a".to_string());
    assert_eq!(names(&s), vec!["b".to_string()]);
    s.remove_client(&"nope".to_string());
    assert_eq!(names(&s), vec!["b".to_string()]);
}

#[test]
fn add_file_skips_queued_paths_and_stops_at_first_error() {
    let mut s = AppState::new();
    let ok = s.add_file(vec![
        ("/d/a.txt".to_string(), Ok(10)),
        ("/d/b.txt".to_string(), Ok(20)),
    ]);
    assert!(ok.is_ok());
    assert_eq!(s.data_files.len(), 2);
    assert_eq!(s.data_files[0].filename, "a.txt");
    assert_eq!(s.data_files[0].file, "/d/a.txt");
    assert_eq!(s.data_files[1].size, 20);
    // a queued path is skipped, even with a failed size lookup
    let r = s.add_file(vec![
        ("/d/a.txt".to_string(), Err("gone".to_string())),
        ("/d/c.txt".to_string(), Ok(3)),
        ("/d/e.txt".to_string(), Err("No such file or directory (os error 2)".to_string())),
        ("/d/f.txt".to_string(), Ok(4)),
    ]);
    assert_eq!(r.unwrap_err().to_string(), "No such file or directory (os error 2)");
    let paths: Vec<String> = s.data_files.iter().map(|f| f.file.clone()).collect();
    assert_eq!(paths, vec!["/d/a.txt", "/d/b.txt", "/d/c.txt"]);
    let r = s.add_file(vec![("/".to_string(), Ok(0))]);
    assert_eq!(r.unwrap_err().to_string(), "文件名获取失败");
    assert_eq!(s.data_files.len(), 3);
}

#[test]
fn add_file_keeps_repeats_within_one_request() {
    let mut s = AppState::new();
    s.add_file(vec![("x/y".to_string(), Ok(1)), ("x/y".to_string(), Ok(1))]).unwrap();
    assert_eq!(s.data_files.len(), 2);
}

#[test]
fn remove_file_takes_the_first_of_that_name() {
    let mut s = AppState::new();
    s.add_file(vec![
        ("/p/a".to_string(), Ok(1)),
        ("/q/a".to_string(), Ok(2)),
        ("/q/b".to_string(), Ok(3)),
    ])
    .unwrap();
    s.remove_file(&"a".to_string());
    let paths: Vec<String> = s.data_files.iter().map(|f| f.file.clone()).collect();
    assert_eq!(paths, vec!["/q/a", "/q/b"]);
    s.remove_file(&"none".to_string());
    assert_eq!(s.data_files.len(), 2);
}

#[test]
fn start_trans_is_refused_while_a_job_runs() {
    let mut s = AppState::new();
    let mut jobs = RunningJobs::new();
    jobs.start("job-1".to_string());
    assert_eq!(get_sender_running_number(&jobs), &vec!["job-1".to_string()]);
    let e = s.start_trans(&jobs).unwrap_err();
    assert_eq!(e.to_string(), "任务正在执行中");
    jobs.finish(&"job-1".to_string());
    assert!(jobs.is_empty());
    assert!(s.start_trans(&jobs).unwrap().is_empty());
}

#[test]
fn start_trans_makes_one_job_per_selected_client() {
    let mut s = AppState::new();
    s.add_client(client("a", "10.0.0.1", 7000, true)).unwrap();
    s.add_client(client("b", "10.0.0.2", 7001, false)).unwrap();
    s.add_client(client("c", "10.0.0.3", 7002, true)).unwrap();
    s.add_file(vec![("/f/1".to_string(), Ok(1)), ("/f/2".to_string(), Ok(2))]).unwrap();
    // a finished and an unfinished record
    s.on_sender_event::<()>(MessageTransHandle::SendFile {
        to: "x".to_string(),
        file_name: "done".to_string(),
        total_len: 4,
        trans_len: 4,
    });
    s.on_sender_event::<()>(MessageTransHandle::SendFile {
        to: "x".to_string(),
        file_name: "done".to_string(),
        total_len: 4,
        trans_len: 4,
    });
    s.on_sender_event::<()>(MessageTransHandle::SendFile {
        to: "x".to_string(),
        file_name: "half".to_string(),
        total_len: 4,
        trans_len: 2,
    });
    assert!(s.data_trans_status[0].info.is_done);
    let jobs = s.start_trans(&RunningJobs::new()).unwrap();
    assert_eq!(jobs.len(), 2);
    match &jobs[1] {
        MessageTransAccept::CreateJob { to, multi_paths } => {
            assert_eq!(to, "10.0.0.3:7002");
            assert_eq!(multi_paths, &vec!["/f/1".to_string(), "/f/2".to_string()]);
        }
        _ => panic!("expected CreateJob"),
    }
    assert_eq!(s.data_trans_status.len(), 1);
    assert_eq!(s.data_trans_status[0].key, "x_half");
    assert_eq!(s.data_files.len(), 2);
    s.complete_trans();
    assert!(s.data_files.is_empty());
    assert!(s.data_intranet_clients.iter().all(|c| !c.selected));
}

#[test]
fn no_job_without_selection() {
    let mut s = AppState::new();
    s.add_client(client("a", "10.0.0.1", 7000, false)).unwrap();
    s.add_file(vec![("/f/1".to_string(), Ok(1))]).unwrap();
    assert!(s.start_trans(&RunningJobs::new()).unwrap().is_empty());
}

#[test]
fn receiver_progress_is_recorded_and_updated() {
    let mut s = AppState::new();
    let ask = s.on_receiver_event(MessageTransHandle::ReceiverAsk {
        reqs: vec![ReqTransferData { filename: "a".to_string() }],
        ask_tx: 7u8,
    });
    let (reqs, tx) = ask.unwrap();
    assert_eq!((reqs.len(), tx), (1, 7));
    // a new record is not done, even when complete
    s.on_receiver_event::<u8>(MessageTransHandle::ReceiverFile {
        from: "1.2.3.4:5".to_string(),
        file_name: "a".to_string(),
        total_len: 3,
        trans_len: 3,
    });
    let info = &s.data_trans_status[0].info;
    assert_eq!(s.data_trans_status[0].key, "1.2.3.4:5_a");
    assert!(!info.is_done);
    assert_eq!(info.trans_type, TransType::Receive);
    assert_eq!(info.to, "");
    s.on_receiver_event::<u8>(MessageTransHandle::ReceiverFile {
        from: "1.2.3.4:5".to_string(),
        file_name: "a".to_string(),
        total_len: 3,
        trans_len: 3,
    });
    assert_eq!(s.data_trans_status.len(), 1);
    assert!(s.data_trans_status[0].info.is_done);
    assert_eq!(s.trans_status_list().len(), 1);
    // the receiver ignores reports of sent files
    s.on_receiver_event::<u8>(MessageTransHandle::SendFile {
        to: "t".to_string(),
        file_name: "a".to_string(),
        total_len: 1,
        trans_len: 0,
    });
    assert_eq!(s.data_trans_status.len(), 1);
}

#[test]
fn this_machine_and_save_path() {
    let mut s = AppState::new();
    s.pick_selected_path("/tmp/x".to_string());
    assert!(s.data_current_client.is_none());
    let c = s.init_data("192.168.1.9".to_string(), 40000, &"host".to_string(), "/dl".to_string());
    assert_eq!(c.name, "host-40000");
    assert_eq!(c.save_path, "/dl");
    s.pick_selected_path("/tmp/x".to_string());
    assert_eq!(s.data_current_client.as_ref().unwrap().save_path, "/tmp/x");
    assert_eq!(s.data_current_client.as_ref().unwrap().port, 40000);
}

#[test]
fn discovery_adds_and_removes_peers() {
    let mut s = AppState::new();
    s.on_service_resolved("pc._svc".to_string(), &vec![], 1);
    assert!(s.data_intranet_clients.is_empty());
    s.on_service_resolved("pc._svc".to_string(), &vec![[10, 0, 0, 4], [10, 0, 0, 5]], 9000);
    assert_eq!(s.data_intranet_clients.len(), 1);
    assert_eq!(s.data_intranet_clients[0].ip, "10.0.0.4");
    assert!(s.data_intranet_clients[0].auto_find);
    assert!(!s.data_intranet_clients[0].selected);
    s.on_service_resolved("pc._svc".to_string(), &vec![[10, 0, 0, 6]], 9001);
    assert_eq!(s.data_intranet_clients.len(), 1);
    s.on_service_removed(&"_other._tcp.local.".to_string(), &"pc._svc".to_string());
    assert_eq!(s.data_intranet_clients.len(), 1);
    s.on_service_removed(&service_type(), &"pc._svc".to_string());
    assert!(s.data_intranet_clients.is_empty());
}

#[test]
fn answers_reach_their_request_once() {
    let mut asks: AskRegistry<u32> = AskRegistry::new();
    asks.insert("u1".to_string(), 1);
    asks.insert("u2".to_string(), 2);
    asks.insert("u1".to_string(), 3);
    assert_eq!(asks.remove(&"u1".to_string()), Some(3));
    assert_eq!(asks.remove(&"u1".to_string()), None);
    assert_eq!(asks.remove(&"u2".to_string()), Some(2));
}

#[test]
fn running_jobs_finish_removes_every_entry_of_the_id() {
    let mut jobs = RunningJobs::new();
    jobs.start("a".to_string());
    jobs.start("b".to_string());
    jobs.start("a".to_string());
    jobs.finish(&"a".to_string());
    assert_eq!(get_sender_running_number(&jobs), &vec!["b".to_string()]);
}

#[test]
fn add_file_compares_paths_not_text() {
    let mut s = AppState::new();
    s.add_file(vec![("a/b".to_string(), Ok(1))]).unwrap();
    s.add_file(vec![
        ("a/b/".to_string(), Ok(1)),
        ("a/./b".to_string(), Ok(1)),
        ("a//b".to_string(), Ok(1)),
    ])
    .unwrap();
    assert_eq!(s.data_files.len(), 1);
    s.add_file(vec![("a/c".to_string(), Ok(2))]).unwrap();
    assert_eq!(s.data_files.len(), 2);
}

#[test]
fn finishing_a_fresh_job_restores_the_running_list() {
    let mut jobs = RunningJobs::new();
    jobs.start("x".to_string());
    let before = get_sender_running_number(&jobs).clone();
    jobs.start("fresh".to_string());
    jobs.finish(&"fresh".to_string());
    assert_eq!(get_sender_running_number(&jobs), &before);
}

#[test]
fn poisoned_lock_and_send_failure_errors() {
    let e = CusErr::from(std::sync::PoisonError::new(()));
    assert_eq!(e.to_string(), "Mutex poison error");
    let e = intranet_share::state::send_job_error(&"channel closed".to_string());
    assert_eq!(e.to_string(), "发送任务失败:channel closed");
}

#[test]
fn add_file_skips_the_exact_text_of_a_queued_path() {
    let mut s = AppState::new();
    s.add_file(vec![("/d/a.txt".to_string(), Ok(1))]).unwrap();
    assert!(s.add_file(vec![("/d/a.txt".to_string(), Err("gone".to_string()))]).is_ok());
    assert_eq!(s.data_files.len(), 1);
}
