// The adaptor factory needs the radio libraries; nothing of it is tested yet.
#[test]
fn test_wireless_adaptor_new() {}
