use clipboard_sync::message::PeerAddr;

#[test]
fn test_adr() {
    let addr = PeerAddr::v4(127, 0, 0, 1, 56085);
    println!("{}", addr.to_text());
    assert_eq!(addr.to_text(), "127.0.0.1:56085");
}

#[test]
fn testss() {
    let mut count = 0;
    let result = loop {
        count += 1;
        if count == 10 {
            break count * 10;
        }
    };
    assert_eq!(result, 100);
}

#[test]
fn v6_text_forms() {
    let v6 = |ip: u128, port: u16, scope_id: u32| PeerAddr::V6 { ip, port, flowinfo: 0, scope_id };
    assert_eq!(v6(1, 8080, 0).to_text(), "[::1]:8080");
    assert_eq!(v6(0x2001_0db8_0000_0000_0000_0000_0000_0001, 443, 0).to_text(), "[2001:db8::1]:443");
    assert_eq!(v6(0x0000_0000_0000_0000_0000_ffff_0102_0304, 80, 0).to_text(), "[::ffff:1.2.3.4]:80");
    assert_eq!(v6(0xfe80_0000_0000_0000_0000_0000_0000_0001, 22, 2).to_text(), "[fe80::1%2]:22");
    assert_eq!(v6(0x0001_0000_0000_0001_0000_0000_0000_0001, 1, 0).to_text(), "[1:0:0:1::1]:1");
    assert_eq!(v6(0x0001_0000_0000_0001_0000_0000_0001_0001, 1, 0).to_text(), "[1::1:0:0:1:1]:1");
    assert_eq!(v6(0x0001_0002_0003_0004_0005_0006_0007_0008, 1, 0).to_text(), "[1:2:3:4:5:6:7:8]:1");
    assert_eq!(v6(0x0001_0000_0003_0004_0005_0006_0007_0008, 1, 0).to_text(), "[1:0:3:4:5:6:7:8]:1");
    assert_eq!(v6(0, 5, 0).to_text(), "[::]:5");
    assert_eq!(PeerAddr::v4(255, 0, 10, 200, 0).to_text(), "255.0.10.200:0");
}
