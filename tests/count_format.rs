use nexus_badges::json_data::format_download_ct;

#[test]
fn does_count_format() {
    assert_eq!(format_download_ct(10_050), "10k");
    assert_eq!(format_download_ct(10_110), "10.1k");
    assert_eq!(format_download_ct(406_356), "406k");
    assert_eq!(format_download_ct(549_999), "549k");
    assert_eq!(format_download_ct(999_950), "999k");
    assert_eq!(format_download_ct(1_000_000), "1M");
    assert_eq!(format_download_ct(2_200_000), "2.2M");
    assert_eq!(format_download_ct(6_156_000), "6.15M");
    assert_eq!(format_download_ct(45_425_000), "45.4M");
    assert_eq!(format_download_ct(346_425_000), "346M");
    assert_eq!(format_download_ct(3_634_425_000), "3.63T");
    assert_eq!(format_download_ct(999_999_999_999), "999T");
    assert_eq!(format_download_ct(5_835_742_000_000), "5.8e12");
    assert_eq!(format_download_ct(106_634_154_000_000), "1.1e14");
}

#[test]
fn small_counts_are_exact() {
    assert_eq!(format_download_ct(0), "0");
    assert_eq!(format_download_ct(7), "7");
    assert_eq!(format_download_ct(9_999), "9999");
}

#[test]
fn fractional_zeros_between_digits_are_kept() {
    assert_eq!(format_download_ct(1_050_000), "1.05M");
    assert_eq!(format_download_ct(1_150_000), "1.15M");
    assert_eq!(format_download_ct(10_000), "10k");
}

#[test]
fn scientific_rounds_half_to_even_and_carries() {
    assert_eq!(format_download_ct(1_000_000_000_000), "1.0e12");
    assert_eq!(format_download_ct(1_250_000_000_000), "1.2e12");
    assert_eq!(format_download_ct(1_350_000_000_000), "1.4e12");
    assert_eq!(format_download_ct(9_960_000_000_000), "1.0e13");
}
