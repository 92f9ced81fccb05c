use audioleaf::ssdp::{add_discovered_device, parse_name_and_ip, ssdp_response_readable};

#[test]
fn reads_name_and_ip_from_response() {
    let response = "HTTP/1.1 200 OK\r\nCache-Control: max-age=60\r\nLocation: http://192.168.1.50:16021\r\nnl-devicename: Shapes 4F2A\r\n\r\n";
    assert!(ssdp_response_readable(response));
    let (name, ip) = parse_name_and_ip(response).unwrap();
    assert_eq!(name, "Shapes 4F2A");
    assert_eq!(ip, "192.168.1.50");
}

#[test]
fn response_without_name_gives_nothing() {
    let response = "HTTP/1.1 200 OK\r\nLocation: http://10.0.0.2:16021\r\n\r\n";
    assert!(ssdp_response_readable(response));
    assert_eq!(parse_name_and_ip(response), None);
}

#[test]
fn later_header_replaces_earlier_one() {
    let response = "Location: http://10.0.0.2:16021\r\nLocation: http://10.0.0.3:16021\r\nnl-devicename: A\r\nnl-devicename: B";
    let (name, ip) = parse_name_and_ip(response).unwrap();
    assert_eq!(name, "B");
    assert_eq!(ip, "10.0.0.3");
}

#[test]
fn location_without_scheme_is_unreadable() {
    let response = "Location: ftp://10.0.0.2\r\nnl-devicename: A";
    assert!(!ssdp_response_readable(response));
}

#[test]
fn a_device_is_listed_once_per_address() {
    let (mut names, mut ips) = (Vec::new(), Vec::new());
    assert!(add_discovered_device(&mut names, &mut ips, "Shapes 4F2A".to_string(), [192, 168, 1, 50]));
    assert!(!add_discovered_device(&mut names, &mut ips, "Shapes 4F2A again".to_string(), [192, 168, 1, 50]));
    assert!(add_discovered_device(&mut names, &mut ips, "Canvas 11".to_string(), [192, 168, 1, 51]));
    assert_eq!(names, vec!["Shapes 4F2A".to_string(), "Canvas 11".to_string()]);
    assert_eq!(ips, vec![[192, 168, 1, 50], [192, 168, 1, 51]]);
}
