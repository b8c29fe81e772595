use stomata::cgroup::{
    cgroups_from_descriptor, controller_paths, parse_cgroup_line, parse_cgroups,
    primary_cgroup_path, CgroupInfo,
};

fn group(id: u32, controllers: &[&str], path: &str) -> CgroupInfo {
    CgroupInfo {
        hierarchy_id: id,
        controllers: controllers.iter().map(|c| c.to_string()).collect(),
        path: path.to_string(),
    }
}

#[test]
fn parses_line_with_controllers() {
    let g = parse_cgroup_line("0:cpu,memory:/user.slice").unwrap();
    assert_eq!(g.hierarchy_id, 0);
    assert_eq!(g.controllers, vec!["cpu".to_string(), "memory".to_string()]);
    assert_eq!(g.path, "/user.slice");
}

#[test]
fn empty_controller_list_means_unified() {
    let g = parse_cgroup_line("4::/init.scope").unwrap();
    assert_eq!(g.hierarchy_id, 4);
    assert_eq!(g.controllers, vec!["unified".to_string()]);
    assert_eq!(g.path, "/init.scope");
}

#[test]
fn named_hierarchy_line_parses() {
    let g = parse_cgroup_line("1:name=systemd:/user.slice/user-1000.slice").unwrap();
    assert_eq!(g.hierarchy_id, 1);
    assert_eq!(g.controllers, vec!["name=systemd".to_string()]);
    assert_eq!(g.path, "/user.slice/user-1000.slice");
}

#[test]
fn malformed_lines_are_rejected() {
    assert!(parse_cgroup_line("").is_none());
    assert!(parse_cgroup_line("garbage").is_none());
    assert!(parse_cgroup_line("0:cpu").is_none());
    assert!(parse_cgroup_line("1:cpu:/a:/b").is_none());
    assert!(parse_cgroup_line("x:cpu:/a").is_none());
    assert!(parse_cgroup_line(":cpu:/a").is_none());
    assert!(parse_cgroup_line("4294967296:cpu:/a").is_none());
}

#[test]
fn hierarchy_id_reads_like_u32_from_str() {
    assert_eq!(parse_cgroup_line("+7:cpu:/a").unwrap().hierarchy_id, 7);
    assert_eq!(parse_cgroup_line("4294967295:cpu:/a").unwrap().hierarchy_id, u32::MAX);
    assert!(parse_cgroup_line("+:cpu:/a").is_none());
}

#[test]
fn descriptor_skips_malformed_lines() {
    let text = "12:pids:/a\nnot a line\n0::/b\n";
    let groups = parse_cgroups(text);
    assert_eq!(groups.len(), 2);
    assert_eq!(groups[0].hierarchy_id, 12);
    assert_eq!(groups[0].controllers, vec!["pids".to_string()]);
    assert_eq!(groups[0].path, "/a");
    assert_eq!(groups[1].hierarchy_id, 0);
    assert_eq!(groups[1].controllers, vec!["unified".to_string()]);
    assert_eq!(groups[1].path, "/b");
}

#[test]
fn descriptor_lines_drop_carriage_returns() {
    let groups = parse_cgroups("3:cpu:/x\r\n0::/y");
    assert_eq!(groups.len(), 2);
    assert_eq!(groups[0].path, "/x");
    assert_eq!(groups[1].path, "/y");
}

#[test]
fn empty_descriptor_has_no_groups() {
    assert!(parse_cgroups("").is_empty());
    assert!(parse_cgroups("\n").is_empty());
}

#[test]
fn unreadable_descriptor_falls_back_to_root() {
    let groups = cgroups_from_descriptor(None);
    assert_eq!(groups.len(), 1);
    assert_eq!(groups[0].hierarchy_id, 0);
    assert!(groups[0].controllers.is_empty());
    assert_eq!(groups[0].path, "/");
    assert_eq!(primary_cgroup_path(&groups), "/");
}

#[test]
fn readable_descriptor_is_parsed() {
    let groups = cgroups_from_descriptor(Some("0::/system.slice/cron.service\n"));
    assert_eq!(groups.len(), 1);
    assert_eq!(groups[0].path, "/system.slice/cron.service");
}

#[test]
fn default_cgroup_is_root() {
    let g = CgroupInfo::default();
    assert_eq!(g.hierarchy_id, 0);
    assert!(g.controllers.is_empty());
    assert_eq!(g.path, "/");
}

#[test]
fn unified_hierarchy_wins_primary_path() {
    let groups = vec![group(0, &[], "/a"), group(3, &["systemd"], "/b")];
    assert_eq!(primary_cgroup_path(&groups), "/a");
}

#[test]
fn systemd_group_is_primary_without_unified() {
    let groups = vec![group(3, &["systemd"], "/b")];
    assert_eq!(primary_cgroup_path(&groups), "/b");
}

#[test]
fn primary_path_defaults_to_root() {
    let groups = vec![group(2, &["cpu"], "/c")];
    assert_eq!(primary_cgroup_path(&groups), "/");
    assert_eq!(primary_cgroup_path(&Vec::new()), "/");
}

#[test]
fn controller_map_is_last_wins() {
    let groups = vec![
        group(1, &["cpu", "memory"], "/first"),
        group(2, &["cpu"], "/second"),
    ];
    let pairs = controller_paths(&groups);
    assert_eq!(
        pairs,
        vec![
            ("cpu".to_string(), "/second".to_string()),
            ("memory".to_string(), "/first".to_string()),
        ]
    );
}

#[test]
fn controller_map_of_parsed_descriptor() {
    let groups = parse_cgroups("0:cpu,memory:/user.slice\n4::/init.scope\n");
    let pairs = controller_paths(&groups);
    assert_eq!(
        pairs,
        vec![
            ("cpu".to_string(), "/user.slice".to_string()),
            ("memory".to_string(), "/user.slice".to_string()),
            ("unified".to_string(), "/init.scope".to_string()),
        ]
    );
}
