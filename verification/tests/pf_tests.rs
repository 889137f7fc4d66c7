use irongate::pf::Addr;
use irongate::pf::IpAddr;
use irongate::pf::Table;
use irongate::pf::is_global;
use irongate::pf::AF_INET;
use irongate::pf::AF_INET6;

#[test]
fn ip_addr() {
    let v4 = IpAddr::V4(1, 2, 3, 4);
    let v6 = IpAddr::V6(0x2404, 0x6800, 0x4004, 0x814, 0, 0, 0, 0x200e);

    assert_eq!(true, is_global(&v4));
    assert_eq!(true, is_global(&v6));

    assert_eq!(false, is_global(&IpAddr::V4(10, 0, 0, 1)));
    assert_eq!(false, is_global(&IpAddr::V6(0, 0, 0, 0, 0, 0, 0, 1)));
}

#[test]
fn non_global_ranges() {
    assert_eq!(false, is_global(&IpAddr::V4(127, 0, 0, 1)));
    assert_eq!(false, is_global(&IpAddr::V4(192, 168, 4, 4)));
    assert_eq!(false, is_global(&IpAddr::V4(172, 16, 0, 9)));
    assert_eq!(true, is_global(&IpAddr::V4(172, 32, 0, 9)));
    assert_eq!(false, is_global(&IpAddr::V4(169, 254, 1, 1)));
    assert_eq!(false, is_global(&IpAddr::V4(255, 255, 255, 255)));
    assert_eq!(false, is_global(&IpAddr::V6(0xfe80, 0, 0, 0, 0, 0, 0, 5)));
    assert_eq!(false, is_global(&IpAddr::V6(0xfec0, 0, 0, 0, 0, 0, 0, 5)));
    assert_eq!(false, is_global(&IpAddr::V6(0xfc01, 0, 0, 0, 0, 0, 0, 5)));
    assert_eq!(false, is_global(&IpAddr::V6(0x2001, 0xdb8, 0, 0, 0, 0, 0, 1)));
}

#[test]
fn multicast_scope_decides() {
    // link-local multicast is not global; global-scope multicast is
    assert_eq!(false, is_global(&IpAddr::V6(0xff02, 0, 0, 0, 0, 0, 0, 1)));
    assert_eq!(false, is_global(&IpAddr::V6(0xff05, 0, 0, 0, 0, 0, 0, 1)));
    assert_eq!(true, is_global(&IpAddr::V6(0xff0e, 0, 0, 0, 0, 0, 0, 1)));
}

#[test]
fn addr_roundtrip_v4() {
    let ip = IpAddr::V4(192, 254, 79, 89);
    let a = Addr::new(&ip);
    assert_eq!(AF_INET, a.af);
    assert_eq!(32, a.net);
    assert_eq!([192, 254, 79, 89], [a.addr[0], a.addr[1], a.addr[2], a.addr[3]]);
    assert_eq!(ip, a.as_ip_addr());
}

#[test]
fn addr_roundtrip_v6() {
    let ip = IpAddr::V6(0x2404, 0x6800, 0x4004, 0x814, 0, 0, 0, 0x200e);
    let a = Addr::new(&ip);
    assert_eq!(AF_INET6, a.af);
    assert_eq!(128, a.net);
    assert_eq!(0x24, a.addr[0]);
    assert_eq!(0x04, a.addr[1]);
    assert_eq!(0x20, a.addr[14]);
    assert_eq!(0x0e, a.addr[15]);
    assert_eq!(ip, a.as_ip_addr());
}

#[test]
fn table_name_truncates() {
    let t = Table::new("blocklist");
    assert_eq!(b"blocklist".to_vec(), *t.name());

    let long = "a-table-name-well-over-the-thirty-one-byte-limit";
    let t = Table::new(long);
    assert_eq!(31, t.name().len());
    assert_eq!(long.as_bytes()[..31].to_vec(), *t.name());
}
