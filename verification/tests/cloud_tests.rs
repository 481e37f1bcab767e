use edgedb_pkg::cloud::{
    split_cloud_instance_name, CloudInstance, InstanceNameError, WaitDecision,
};

#[test]
fn split_well_formed_name() {
    assert_eq!(
        split_cloud_instance_name("myorg/staging"),
        Ok((String::from("myorg"), String::from("staging")))
    );
}

#[test]
fn split_keeps_later_slashes_in_instance() {
    assert_eq!(
        split_cloud_instance_name("a/b/c"),
        Ok((String::from("a"), String::from("b/c")))
    );
}

#[test]
fn split_rejects_malformed_names() {
    assert_eq!(split_cloud_instance_name(""), Err(InstanceNameError::EmptyName));
    assert_eq!(split_cloud_instance_name("/inst"), Err(InstanceNameError::EmptyName));
    assert_eq!(split_cloud_instance_name("justone"), Err(InstanceNameError::NoSeparator));
    assert_eq!(split_cloud_instance_name("org/"), Err(InstanceNameError::MissingInstance));
}

fn instance(dsn: &str, status: &str) -> CloudInstance {
    CloudInstance {
        id: String::from("i-1"),
        name: String::from("inst"),
        dsn: String::from(dsn),
        status: String::from(status),
        tls_ca: None,
        org_slug: String::from("org"),
    }
}

#[test]
fn wait_ready_once_dsn_is_set() {
    assert_eq!(instance("edgedb://u@h/db", "available").wait_step(), WaitDecision::Ready);
    // the DSN decides even while the status still says creating
    assert_eq!(instance("edgedb://u@h/db", "creating").wait_step(), WaitDecision::Ready);
}

#[test]
fn wait_polls_while_creating() {
    assert_eq!(instance("", "creating").wait_step(), WaitDecision::Poll { sleep: true });
    assert_eq!(instance("", "available").wait_step(), WaitDecision::Poll { sleep: false });
}

#[test]
fn wait_fails_on_unexpected_status() {
    assert_eq!(instance("", "errored").wait_step(), WaitDecision::Failed);
    assert_eq!(instance("", "").wait_step(), WaitDecision::Failed);
}
