use esp_idf_part::{PartitionTable, Type};
use freemdu_home::keyscan::migration::target;

const CSV: &str = "# Name, Type, SubType, Offset, Size, Flags
nvs,data,nvs,0x9000,0x4000,
otadata,data,ota,0xd000,0x2000,
phy_init,data,phy,0xf000,0x1000,
ota_0,app,ota_0,0x10000,0x1f0000,
ota_1,app,ota_1,0x200000,0x1f0000,
keyscan,0x40,0x00,0x3f0000,0x10000,
";

#[test]
fn espflash_parser_accepts_scan_partition_and_csv_matches_binary() {
    let sector = target();
    let binary = &sector[..3072];
    assert!(sector[3072..].iter().all(|b| *b == 0xff));
    let table = PartitionTable::try_from(binary.to_vec()).unwrap();
    table.validate().unwrap();
    let scan = table.find("keyscan").unwrap();
    assert_eq!(scan.ty(), Type::Custom(0x40));
    assert_eq!(u8::from(scan.subtype()), 0);
    assert_eq!(scan.offset(), 0x3f0000);
    assert_eq!(scan.size(), 0x10000);
    assert_eq!(table.to_bin().unwrap(), binary);

    let csv = PartitionTable::try_from(CSV).unwrap();
    assert_eq!(csv.to_bin().unwrap(), binary);
}
