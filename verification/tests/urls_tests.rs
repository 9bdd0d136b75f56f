use drova_launcher::urls::products_full_url;
use drova_launcher::urls::station_hardware_url;
use drova_launcher::urls::station_info_url;
use drova_launcher::urls::station_products_url;

#[test]
fn test_station_products_url() {
    let url = station_products_url("uuid-1");
    assert_eq!(
        url,
        "https://services.drova.io/product-manager/serverproduct/list/uuid-1"
    );
}

#[test]
fn test_station_info_url() {
    let url = station_info_url("uuid-1");
    assert_eq!(
        url,
        "https://services.drova.io/server-manager/servers/uuid-1"
    );
}

#[test]
fn test_station_hardware_url() {
    let url = station_hardware_url("uuid-1");
    assert_eq!(
        url,
        "https://services.drova.io/server-manager/hardware/list/uuid-1"
    );
}

#[test]
fn test_products_full_url() {
    let url = products_full_url();
    assert_eq!(
        url,
        "https://services.drova.io/product-manager/product/listfull2?limit=2000"
    );
}
