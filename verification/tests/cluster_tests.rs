use rmdadm::cluster::{str_lt, ClusterManager, NodeInfo};
use rmdadm::btrfs::{balance_start, command_output, filesystem_show, scrub_start, scrub_status, subvolume_snapshot};
use rmdadm::cli::{assemble_mode, parse_bitmap_location, show_bitmap_info, show_spares, AssembleMode};
use rmdadm::error::MdError;
use rmdadm::ops::bitmap::{BitmapInfo, BitmapLocation};
use rmdadm::ops::spare::SpareInfo;
use rmdadm::validation::CommandOutput;

fn node(id: &str) -> NodeInfo {
    NodeInfo { id: id.to_string(), address: "127.0.0.1:8080".to_string(), is_active: true }
}

#[test]
fn persists_cluster_nodes() {
    let mut manager = ClusterManager::with_state_dir("/tmp/cluster".to_string(), vec![]);
    manager.join_cluster(node("node-a"));
    let loaded = ClusterManager::with_state_dir("/tmp/cluster".to_string(), manager.list_nodes());
    assert_eq!(loaded.list_nodes().len(), 1);
    assert_eq!(loaded.list_nodes()[0].id, "node-a");
}

#[test]
fn nodes_are_listed_by_id_once_each() {
    let mut m = ClusterManager::new(vec![node("c"), node("a")]);
    m.join_cluster(node("b"));
    m.join_cluster(node("a"));
    let ids: Vec<String> = m.list_nodes().into_iter().map(|n| n.id).collect();
    assert_eq!(ids, vec!["a", "b", "c"]);
    m.leave_cluster("b");
    let ids: Vec<String> = m.list_nodes().into_iter().map(|n| n.id).collect();
    assert_eq!(ids, vec!["a", "c"]);
    assert_eq!(m.nodes_path(), "/var/lib/rmdadm/cluster/nodes.json");
    let md = m.sync_metadata(None, "now".to_string(), None);
    assert_eq!(md.node_id, "unknown");
    assert_eq!(md.mdstat, "");
    assert!(str_lt("ab", "b"));
    assert!(str_lt("a", "ab"));
    assert!(!str_lt("b", "b"));
}

#[test]
fn btrfs_commands() {
    assert_eq!(filesystem_show(None), vec!["filesystem", "show"]);
    assert_eq!(scrub_start("/mnt", true), vec!["scrub", "start", "-r", "/mnt"]);
    assert_eq!(scrub_status("/mnt"), vec!["scrub", "status", "/mnt"]);
    assert_eq!(balance_start("/mnt", false), vec!["balance", "start", "-dusage=75", "-musage=75", "/mnt"]);
    assert_eq!(subvolume_snapshot("/a", "/b", false), vec!["subvolume", "snapshot", "/a", "/b"]);
    let ok = Ok(CommandOutput { success: true, stdout: " out\n".to_string(), stderr: String::new() });
    assert_eq!(command_output(&ok).unwrap(), "out");
    let failed = Ok(CommandOutput { success: false, stdout: String::new(), stderr: " \n".to_string() });
    assert!(matches!(command_output(&failed), Err(MdError::InvalidState(m)) if m == "btrfs command failed"));
    assert!(matches!(command_output(&Err("missing".to_string())), Err(MdError::Io(m)) if m == "missing"));
}

#[test]
fn command_line_helpers() {
    assert_eq!(parse_bitmap_location("internal").unwrap(), BitmapLocation::Internal);
    assert!(matches!(parse_bitmap_location("other"), Err(MdError::ConfigValidation(m)) if m == "Invalid bitmap location: other"));
    assert!(matches!(assemble_mode(None, None, Some("/dev/sda".to_string())), Ok(AssembleMode::Auto(_))));
    assert!(assemble_mode(Some("/dev/md0".to_string()), None, None).is_err());
    let info = BitmapInfo { enabled: true, location: BitmapLocation::Internal, chunk_size: Some(64), file_path: None, pages: Some(3), dirty_pages: None };
    assert_eq!(show_bitmap_info(&info), vec!["Bitmap Information:", "  Enabled: true", "  Location: Internal", "  Chunk Size: 64 KB", "  Total Pages: 3"]);
    assert_eq!(show_spares(&vec![]), vec!["No spare disks found in array"]);
    let s = SpareInfo { device: "/dev/sdd1".to_string(), state: "spare".to_string(), slot: Some(2), is_spare: true };
    assert_eq!(show_spares(&vec![s]), vec!["Spare Disks:", "  Device: /dev/sdd1", "    State: spare", "    Slot: 2", ""]);
}
