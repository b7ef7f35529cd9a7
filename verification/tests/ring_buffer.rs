use msbe::ioringbuffer::Ioribnbuffer;

#[test]
fn new_buffer_is_empty() {
    let b = Ioribnbuffer::<8>::new();
    assert_eq!(b.len(), 0);
    assert_eq!(b.write_capacity(), 7);
    assert!(b.readable().is_empty());
}

#[test]
fn bytes_come_out_in_the_order_they_went_in() {
    let mut b = Ioribnbuffer::<8>::new();
    assert_eq!(b.write(&[1, 2, 3]), 3);
    assert_eq!(b.len(), 3);
    assert_eq!(b.write(&[4, 5]), 2);
    assert_eq!(b.readable(), vec![1, 2, 3, 4, 5]);
    assert_eq!(b.read(2), 2);
    assert_eq!(b.readable(), vec![3, 4, 5]);
    assert_eq!(b.len(), 3);
}

#[test]
fn positions_wrap_round_the_end() {
    let mut b = Ioribnbuffer::<4>::new();
    b.write(&[1, 2, 3]);
    b.read(2);
    // writei = 3, readi = 2: the fill region runs to the end of the buffer.
    assert_eq!(b.write_capacity(), 1);
    b.write(&[4]);
    // writei wrapped to 0; the fill region now stops one cell short of readi.
    assert_eq!(b.write_capacity(), 1);
    b.write(&[5]);
    assert_eq!(b.len(), 3);
    // readi = 2 > writei = 1: the drain region runs to the end of the buffer.
    assert_eq!(b.readable(), vec![3, 4]);
    b.read(2);
    assert_eq!(b.readable(), vec![5]);
    b.read(1);
    assert_eq!(b.len(), 0);
}

#[test]
fn a_full_buffer_keeps_every_byte() {
    let mut b = Ioribnbuffer::<4>::new();
    assert_eq!(b.write_capacity(), 3);
    assert_eq!(b.write(&[1, 2, 3]), 3);
    assert_eq!(b.len(), 3);
    assert_eq!(b.write_capacity(), 0);
    assert_eq!(b.readable(), vec![1, 2, 3]);
}

#[test]
fn the_fill_region_stops_short_of_the_read_position() {
    let mut b = Ioribnbuffer::<4>::new();
    b.write(&[1, 2]);
    b.read(1);
    // readi = 1, writei = 2: up to the end of the buffer.
    assert_eq!(b.write_capacity(), 2);
    b.write(&[3, 4]);
    // writei wrapped to 0, one cell before readi: the buffer is full.
    assert_eq!(b.len(), 3);
    assert_eq!(b.write_capacity(), 0);
    b.write(&[]);
    assert_eq!(b.len(), 3);
    assert_eq!(b.readable(), vec![2, 3, 4]);
}

#[test]
fn nothing_is_lost_over_many_fills_and_drains() {
    let mut b = Ioribnbuffer::<5>::new();
    let source: Vec<u8> = (1..=40).collect();
    let mut supplied = 0usize;
    let mut taken: Vec<u8> = vec![];
    let mut turn = 0usize;
    while taken.len() < source.len() {
        let room = b.write_capacity();
        let n = room.min(source.len() - supplied).min(turn % 3 + 1);
        b.write(&source[supplied..supplied + n]);
        supplied += n;
        let window = b.readable();
        let k = window.len().min(turn % 2 + 1);
        taken.extend_from_slice(&window[..k]);
        b.read(k);
        assert_eq!(supplied - taken.len(), b.len());
        assert_eq!(&source[..taken.len()], &taken[..]);
        turn += 1;
    }
    assert_eq!(taken, source);
}

#[test]
fn len_counts_across_the_wrap() {
    let mut b = Ioribnbuffer::<5>::new();
    b.write(&[1, 2, 3, 4]);
    b.read(4);
    b.write(&[5]);
    b.write(&[6, 7]);
    // readi = 4, writei = 2
    assert_eq!(b.len(), 3);
    assert_eq!(b.readable(), vec![5]);
}

#[test]
fn zero_sized_buffer_holds_nothing() {
    let b = Ioribnbuffer::<0>::new();
    assert_eq!(b.len(), 0);
}
