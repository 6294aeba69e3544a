use herdr::server_epoch::{init, server_epoch, EpochCell};
use herdr::session::SessionSnapshot;

#[test]
fn a_snapshot_carries_the_token_of_its_server() {
    let mut cell = EpochCell::new();
    init(&mut cell).expect("entropy");
    let snapshot: SessionSnapshot<u8, u8, u8, u8, u8> = SessionSnapshot {
        version: "0.8.0-heb.1".to_string(),
        protocol: 1,
        focused_workspace_id: None,
        focused_tab_id: None,
        focused_pane_id: None,
        workspaces: vec![],
        tabs: vec![],
        panes: vec![],
        layouts: vec![],
        agents: vec![],
        server_epoch: server_epoch(&cell).map(str::to_string),
    };
    assert_eq!(snapshot.server_epoch.as_deref(), server_epoch(&cell));
    assert_eq!(snapshot.server_epoch.as_ref().map(|token| token.len()), Some(32));
    assert_eq!(snapshot.clone(), snapshot);
}
