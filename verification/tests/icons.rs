use ef_core::icons::{ico_container, ico_sizes};

fn png_frame(size: u32) -> (u32, Vec<u8>) {
    let mut v = vec![0x89, b'P', b'N', b'G', 0x0D, 0x0A, 0x1A, 0x0A];
    v.extend((0..size).map(|i| (i % 251) as u8));
    (size, v)
}

#[test]
fn the_container_describes_every_frame_and_points_at_it() {
    let frames: Vec<_> = [16u32, 256].iter().map(|s| png_frame(*s)).collect();
    let ico = ico_container(&frames).unwrap();

    assert_eq!(&ico[0..2], &[0, 0], "reserved");
    assert_eq!(u16::from_le_bytes([ico[2], ico[3]]), 1, "type is icon");
    assert_eq!(u16::from_le_bytes([ico[4], ico[5]]), 2, "two frames");

    for (i, (size, png)) in frames.iter().enumerate() {
        let e = 6 + 16 * i;
        let want = if *size == 256 { 0 } else { *size as u8 };
        assert_eq!(ico[e], want, "width of frame {i}");
        assert_eq!(ico[e + 1], want, "height of frame {i}");
        let len = u32::from_le_bytes(ico[e + 8..e + 12].try_into().unwrap()) as usize;
        let off = u32::from_le_bytes(ico[e + 12..e + 16].try_into().unwrap()) as usize;
        assert_eq!(len, png.len());
        assert_eq!(&ico[off..off + 8], &png[..8], "frame {i} is where it says");
        assert_eq!(&ico[off..off + len], &png[..], "frame {i} round-trips");
    }
    assert_eq!(ico.len(), 6 + 32 + frames.iter().map(|(_, p)| p.len()).sum::<usize>());
}

#[test]
fn a_frame_too_large_to_describe_is_refused() {
    assert_eq!(
        ico_container(&[png_frame(16), png_frame(257), png_frame(300)]).unwrap_err(),
        "257 is larger than an .ico entry can describe"
    );
}

#[test]
fn an_empty_icon_is_just_a_header() {
    assert_eq!(ico_container(&[]).unwrap(), vec![0, 0, 1, 0, 0, 0]);
    assert_eq!(ico_sizes(), vec![16, 24, 32, 48, 64, 128, 256]);
}
