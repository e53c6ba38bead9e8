use agentbar::storage::data_dir;

#[test]
fn data_dir_joins_the_home_directory() {
    assert_eq!(data_dir("/Users/me", '/'), "/Users/me/.agent-bar");
    assert_eq!(data_dir("/Users/me/", '/'), "/Users/me/.agent-bar");
    assert_eq!(data_dir("", '/'), ".agent-bar");
    assert_eq!(data_dir("C:\\Users\\me", '\\'), "C:\\Users\\me\\.agent-bar");
    assert_eq!(data_dir("C:\\Users\\me\\", '\\'), "C:\\Users\\me\\.agent-bar");
}
