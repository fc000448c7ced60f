use proof_service::manager::LoadStep;
use proof_service::protocol::{Build, RuntimeConfig};
use proof_service::service::StageServiceSVC;
use proof_service::startup::StartupStep;

fn config(ca_cert: bool) -> RuntimeConfig {
    RuntimeConfig {
        base_dir: "/data".to_string(),
        database_url: "mysql://db".to_string(),
        fileserver_url: None,
        prover_addrs: vec![],
        max_concurrent_tasks: Some(4),
        ca_cert_path: if ca_cert { Some("ca.pem".to_string()) } else { None },
        cert_path: Some("cert.pem".to_string()),
        key_path: Some("key.pem".to_string()),
    }
}

/// Where a start ends if this step fails, and which steps were taken.
fn start(ca_cert: bool, failing: &str) -> (Result<StageServiceSVC, String>, Vec<&'static str>) {
    let mut step = StageServiceSVC::new(config(ca_cert), Build::Both);
    let mut taken = vec![];
    let outcome = |name: &str| {
        if name == failing {
            Err(format!("no {name}"))
        } else {
            Ok(())
        }
    };
    loop {
        step = match step {
            StartupStep::SetUpTls(work) => {
                taken.push("tls");
                assert_eq!(work.paths.ca_cert, "ca.pem");
                assert_eq!(work.paths.cert, "cert.pem");
                assert_eq!(work.paths.key, "key.pem");
                work.answer(outcome("tls"))
            }
            StartupStep::Migrate(work) => {
                taken.push("migrate");
                assert_eq!(work.tls, ca_cert);
                work.answer(outcome("migrate"))
            }
            StartupStep::LoadBacklog(work) => {
                taken.push("load");
                assert_eq!(work.manager.permits, 4);
                let end = match outcome("load") {
                    Ok(()) => LoadStep::Done(0),
                    Err(cause) => work.manager.load_incomplete_tasks_from_db(Err(cause)),
                };
                work.answer(end)
            }
            StartupStep::StartWorkers(work) => {
                taken.push("workers");
                assert_eq!(work.tls, ca_cert);
                assert_eq!(work.manager.permits, 4);
                work.answer()
            }
            StartupStep::Ready(service) => return (Ok(service), taken),
            StartupStep::Fail(message) => return (Err(message), taken),
        };
    }
}

#[test]
fn everything_is_done_in_turn() {
    let (end, taken) = start(true, "");
    assert_eq!(taken, vec!["tls", "migrate", "load", "workers"]);
    let service = end.ok().unwrap();
    assert_eq!(service.build, Build::Both);
    assert_eq!(service.config.database_url, "mysql://db");
    let (end, taken) = start(false, "");
    assert!(end.is_ok());
    assert_eq!(taken, vec!["migrate", "load", "workers"]);
}

#[test]
fn failed_start_has_no_workers() {
    let (end, taken) = start(true, "tls");
    assert_eq!(end.err(), Some("no tls".to_string()));
    assert_eq!(taken, vec!["tls"]);
    let (end, taken) = start(false, "migrate");
    assert_eq!(end.err(), Some("no migrate".to_string()));
    assert_eq!(taken, vec!["migrate"]);
    let (end, taken) = start(true, "load");
    assert_eq!(
        end.err(),
        Some("Failed to load incomplete tasks from database".to_string())
    );
    assert_eq!(taken, vec!["tls", "migrate", "load"]);
}
