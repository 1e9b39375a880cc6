use gpjc_api::paths::{find_path, project_dir, sanctions_dir};

#[test]
fn project_dir_appends_checkout() {
    assert_eq!(project_dir("/srv/gpjc"), "/srv/gpjc/private-join-and-compute");
}

#[test]
fn sanctions_dir_beside_project() {
    assert_eq!(
        sanctions_dir("/srv/gpjc/private-join-and-compute"),
        "/srv/gpjc/sanction-lists/"
    );
    assert_eq!(sanctions_dir(&project_dir("/home/u")), "/home/u/sanction-lists/");
}

#[test]
fn sanctions_dir_removes_every_occurrence() {
    assert_eq!(
        sanctions_dir("/a/private-join-and-compute/b/private-join-and-compute"),
        "/a//b/sanction-lists/"
    );
    assert_eq!(sanctions_dir("/plain"), "/plainsanction-lists/");
    let odd = "/x/private-join-private-join-and-compute-and-compute";
    assert_eq!(sanctions_dir(odd), odd.replace("private-join-and-compute", "") + "sanction-lists/");
}

#[test]
fn find_path_takes_first_match() {
    let paths = vec![
        "/s/UN_test.csv".to_string(),
        "/s/UN_List.csv".to_string(),
        "/s/UN_List.csv.bak".to_string(),
    ];
    assert_eq!(find_path(&paths, "UN_List.csv"), Some("/s/UN_List.csv".to_string()));
    assert_eq!(find_path(&paths, "UN_test.csv"), Some("/s/UN_test.csv".to_string()));
    assert_eq!(find_path(&paths, "EU.csv"), None);
    assert_eq!(find_path(&vec![], "x"), None);
}
