use helloworld::contract::HelloWorld;
use helloworld::types::Command;
use helloworld::types::Error;
use helloworld::types::Identity;
use helloworld::types::Request;
use helloworld::types::Response;
use helloworld::types::TransactionStatus;
use helloworld::types::TxRef;
use helloworld::types::HELLO_WORLD;

fn tx() -> TxRef {
    TxRef { blocknum: 0, index: 0 }
}

#[test]
fn fresh_contract_counts_zero() {
    let c = HelloWorld::new();
    let r = c.handle_query(None, Request::GetCount);
    assert_eq!(r, Response::GetCount { count: 0 });
}

#[test]
fn contract_reports_its_id() {
    let c = HelloWorld::new();
    assert_eq!(c.id(), HELLO_WORLD);
}

#[test]
fn increments_accumulate_across_interleaving() {
    let mut c = HelloWorld::new();
    let x = Identity { raw: 1 };
    let y = Identity { raw: 2 };
    assert_eq!(
        c.handle_command(&x, &tx(), Command::Increment { value: 3 }),
        TransactionStatus::Accepted
    );
    c.handle_command(&y, &tx(), Command::AddFile { address: "cid9".to_string() });
    c.handle_command(&y, &tx(), Command::Increment { value: 4 });
    c.handle_command(&x, &tx(), Command::AddFile { address: "cid8".to_string() });
    c.handle_command(&x, &tx(), Command::Increment { value: 10 });
    let r = c.handle_query(None, Request::GetCount);
    assert_eq!(r, Response::GetCount { count: 17 });
}

#[test]
fn increment_wraps_at_the_top() {
    let mut c = HelloWorld::new();
    let x = Identity { raw: 1 };
    c.handle_command(&x, &tx(), Command::Increment { value: u32::MAX });
    c.handle_command(&x, &tx(), Command::Increment { value: 5 });
    let r = c.handle_query(None, Request::GetCount);
    assert_eq!(r, Response::GetCount { count: 4 });
}

#[test]
fn files_return_in_submission_order() {
    let mut c = HelloWorld::new();
    let x = Identity { raw: 10 };
    c.handle_command(&x, &tx(), Command::AddFile { address: "first".to_string() });
    c.handle_command(&x, &tx(), Command::AddFile { address: "second".to_string() });
    c.handle_command(&x, &tx(), Command::AddFile { address: "third".to_string() });
    let r = c.handle_query(Some(&x), Request::GetFiles);
    assert_eq!(
        r,
        Response::GetFiles {
            file: vec!["first".to_string(), "second".to_string(), "third".to_string()],
        }
    );
}

#[test]
fn duplicate_addresses_are_kept() {
    let mut c = HelloWorld::new();
    let x = Identity { raw: 10 };
    c.handle_command(&x, &tx(), Command::AddFile { address: "same".to_string() });
    c.handle_command(&x, &tx(), Command::AddFile { address: "same".to_string() });
    let r = c.handle_query(Some(&x), Request::GetFiles);
    assert_eq!(
        r,
        Response::GetFiles { file: vec!["same".to_string(), "same".to_string()] }
    );
}

#[test]
fn identities_keep_separate_records() {
    let mut c = HelloWorld::new();
    let x = Identity { raw: 1 };
    let y = Identity { raw: 2 };
    c.handle_command(&x, &tx(), Command::AddFile { address: "mine".to_string() });
    c.handle_command(&y, &tx(), Command::AddFile { address: "yours".to_string() });
    let rx = c.handle_query(Some(&x), Request::GetFiles);
    let ry = c.handle_query(Some(&y), Request::GetFiles);
    assert_eq!(rx, Response::GetFiles { file: vec!["mine".to_string()] });
    assert_eq!(ry, Response::GetFiles { file: vec!["yours".to_string()] });
}

#[test]
fn unknown_identity_gets_not_authorized() {
    let mut c = HelloWorld::new();
    let x = Identity { raw: 1 };
    let y = Identity { raw: 2 };
    c.handle_command(&x, &tx(), Command::AddFile { address: "cid1".to_string() });
    let r = c.handle_query(Some(&y), Request::GetFiles);
    assert_eq!(r, Response::Error(Error::NotAuthorized));
}

#[test]
fn get_files_without_origin_is_a_soft_error() {
    let mut c = HelloWorld::new();
    let x = Identity { raw: 1 };
    c.handle_command(&x, &tx(), Command::AddFile { address: "cid1".to_string() });
    let r = c.handle_query(None, Request::GetFiles);
    assert_eq!(r, Response::Error(Error::MissingOrigin));
}

#[test]
fn get_count_ignores_origin() {
    let mut c = HelloWorld::new();
    let x = Identity { raw: 1 };
    let y = Identity { raw: 2 };
    c.handle_command(&x, &tx(), Command::Increment { value: 9 });
    let r_none = c.handle_query(None, Request::GetCount);
    let r_x = c.handle_query(Some(&x), Request::GetCount);
    let r_y = c.handle_query(Some(&y), Request::GetCount);
    assert_eq!(r_none, Response::GetCount { count: 9 });
    assert_eq!(r_x, Response::GetCount { count: 9 });
    assert_eq!(r_y, Response::GetCount { count: 9 });
}

#[test]
fn queries_do_not_mutate_state() {
    let mut c = HelloWorld::new();
    let x = Identity { raw: 1 };
    c.handle_command(&x, &tx(), Command::Increment { value: 2 });
    c.handle_command(&x, &tx(), Command::AddFile { address: "cid1".to_string() });
    let first = c.handle_query(Some(&x), Request::GetFiles);
    let second = c.handle_query(Some(&x), Request::GetFiles);
    assert_eq!(first, second);
    let count_a = c.handle_query(None, Request::GetCount);
    let count_b = c.handle_query(None, Request::GetCount);
    assert_eq!(count_a, count_b);
    assert_eq!(count_a, Response::GetCount { count: 2 });
    assert_eq!(
        c.handle_query(Some(&x), Request::GetFiles),
        Response::GetFiles { file: vec!["cid1".to_string()] }
    );
}

#[test]
fn full_scenario_from_fresh_state() {
    let mut c = HelloWorld::new();
    let x = Identity { raw: 100 };
    let y = Identity { raw: 200 };
    let status = c.handle_command(&x, &tx(), Command::Increment { value: 5 });
    assert_eq!(status, TransactionStatus::Accepted);
    c.handle_command(&x, &tx(), Command::AddFile { address: "cid1".to_string() });
    c.handle_command(&x, &tx(), Command::AddFile { address: "cid2".to_string() });
    let files_x = c.handle_query(Some(&x), Request::GetFiles);
    assert_eq!(
        files_x,
        Response::GetFiles { file: vec!["cid1".to_string(), "cid2".to_string()] }
    );
    let files_y = c.handle_query(Some(&y), Request::GetFiles);
    assert_eq!(files_y, Response::Error(Error::NotAuthorized));
    let count = c.handle_query(None, Request::GetCount);
    assert_eq!(count, Response::GetCount { count: 5 });
}
