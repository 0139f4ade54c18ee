use backlog_mcp::disk_usage::{order_by_usage, top_project_usages, ProjectDiskUsage, SpaceDiskUsage};

fn usage(project_id: u32, issue: i64, git: i64) -> ProjectDiskUsage {
    ProjectDiskUsage {
        project_id,
        issue,
        wiki: 1,
        document: 2,
        file: 3,
        subversion: 4,
        git,
        git_lfs: 5,
    }
}

#[test]
fn project_total_adds_every_feature() {
    assert_eq!(usage(1, 100, 10).total(), 100 + 1 + 2 + 3 + 4 + 10 + 5);
}

#[test]
fn space_total_leaves_documents_out() {
    let u = SpaceDiskUsage {
        capacity: 1 << 40,
        issue: 10,
        wiki: 20,
        file: 30,
        subversion: 40,
        git: 50,
        git_lfs: 60,
    };
    assert_eq!(u.total_used(), 210);
}

#[test]
fn ordering_is_largest_first_and_stable() {
    let entries = vec![(1, 5), (2, 9), (3, 5), (4, -1), (5, 9)];
    assert_eq!(order_by_usage(&entries), vec![(2, 9), (5, 9), (1, 5), (3, 5), (4, -1)]);
    assert_eq!(order_by_usage(&vec![]), vec![]);
}

#[test]
fn top_projects_keep_at_most_the_limit() {
    let details: Vec<ProjectDiskUsage> = (1..=12).map(|i| usage(i, i as i64 * 100, 0)).collect();
    let top = top_project_usages(&details, 10);
    assert_eq!(top.len(), 10);
    assert_eq!(top[0], (12, 1200 + 15));
    assert_eq!(top[9], (3, 300 + 15));
    let few = top_project_usages(&details[..2].to_vec(), 10);
    assert_eq!(few, vec![(2, 215), (1, 115)]);
    assert!(top_project_usages(&vec![], 10).is_empty());
}
