use rbd::safe_url::is_safe_download_url;

#[test]
fn local_and_private_hosts_are_refused() {
    for u in [
        "http://localhost/a",
        "http://localhost./a",
        "http://127.0.0.5/",
        "http://10.1.2.3/",
        "http://172.16.0.1/",
        "http://192.168.1.1/",
        "http://169.254.169.254/",
        "http://[::1]/",
        "ftp://example.com/a",
        "https://nas.local/a",
        "https://nas.local./a",
    ] {
        assert!(!is_safe_download_url(u), "{u}");
    }
}

#[test]
fn public_hosts_are_allowed() {
    assert!(is_safe_download_url("http://172.32.0.1/"));
    assert!(is_safe_download_url("https://upos-sz-mirrorcos.bilivideo.com/a.m4s"));
}
