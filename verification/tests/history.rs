use oqto::history::project_name_from_path;

#[test]
fn test_project_name_from_path() {
    assert_eq!(project_name_from_path("global"), "Global");
    assert_eq!(project_name_from_path(""), "Global");
    assert_eq!(project_name_from_path("/home/wismut/Code/lst"), "lst");
    assert_eq!(project_name_from_path("/home/wismut/byteowlz/kittenx"), "kittenx");
    assert_eq!(project_name_from_path("/home/wismut/byteowlz/govnr"), "govnr");
}
