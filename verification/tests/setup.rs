use deploynest_worker::config::{Config, Environment};
use deploynest_worker::effect::{Effect, Reply};
use deploynest_worker::fault::Fault;
use deploynest_worker::setup::{Setup, SetupProgress};

fn pending(progress: SetupProgress) -> (Setup, String) {
    match progress {
        SetupProgress::Pending(setup, Effect::CreateDir(path)) => (setup, format!("create {path}")),
        SetupProgress::Pending(setup, Effect::RunCaptured(command)) => {
            (setup, format!("captured {} {}", command.program, command.args.join(" ")))
        }
        SetupProgress::Pending(setup, Effect::RunWatched(command)) => {
            (setup, format!("watched {} {}", command.program, command.args.join(" ")))
        }
        _ => panic!("nothing is asked for"),
    }
}

fn message(progress: SetupProgress) -> String {
    match progress {
        SetupProgress::Failed(fault) => fault.message,
        _ => panic!("the preparations did not fail"),
    }
}

fn at_network() -> Setup {
    let config = Config::from_env(&Environment::new()).unwrap();
    let (setup, asked) = pending(Setup::begin(&config));
    assert_eq!(asked, "create /tmp/deploynest");
    let (setup, asked) = pending(setup.step(Reply::Ready));
    assert_eq!(asked, "captured docker network ls --filter name=^deploynest-net$ --format {{.Name}}");
    setup
}

fn listed(text: &str) -> Reply {
    Reply::captured(true, &text.as_bytes().to_vec(), &vec![])
}

#[test]
fn an_existing_network_is_kept() {
    assert!(matches!(at_network().step(listed("deploynest-net\n")), SetupProgress::Ready));
}

#[test]
fn a_missing_network_is_created() {
    let (setup, asked) = pending(at_network().step(listed(" \n")));
    assert_eq!(asked, "watched docker network create deploynest-net");
    assert!(matches!(setup.step(Reply::Watched(true)), SetupProgress::Ready));
}

#[test]
fn a_network_that_cannot_be_created_ends_the_preparations() {
    let (setup, _) = pending(at_network().step(listed("")));
    assert_eq!(
        message(setup.step(Reply::Watched(false))),
        "Failed to create Docker network deploynest-net"
    );
}

#[test]
fn faults_end_the_preparations() {
    let config = Config::from_env(&Environment::new()).unwrap();
    let (setup, _) = pending(Setup::begin(&config));
    let fault = Fault::new("read-only".to_string());
    assert_eq!(message(setup.step(Reply::Failed(fault))), "read-only");
    assert_eq!(message(at_network().step(Reply::Ready)), "Unexpected reply");
}

#[test]
fn the_preparations_end_after_three_replies() {
    let config = Config::from_env(&Environment::new()).unwrap();
    let replies: Vec<fn() -> Reply> = vec![
        || Reply::Ready,
        || Reply::Watched(true),
        || Reply::captured(true, &vec![], &vec![]),
        || Reply::Failed(Fault::new("broken".to_string())),
    ];
    for a in &replies {
        for b in &replies {
            for c in &replies {
                let mut progress = Setup::begin(&config);
                for reply in [a, b, c] {
                    if let SetupProgress::Pending(setup, _) = progress {
                        progress = setup.step(reply());
                    }
                }
                assert!(!matches!(progress, SetupProgress::Pending(_, _)));
            }
        }
    }
}
