use rust_to_ts::neural::NeuralNetwork;

#[test]
fn dims_and_indexing() {
    let mut nn = NeuralNetwork::new_with_value(2, 3, 4, 0i32);
    assert_eq!(nn.dims(), (2, 3, 4));
    assert_eq!(nn.len(), 2 * 3 * 4);

    // Write specific coordinates and read back
    *nn.get_mut(1, 2, 3).unwrap() = 42;
    assert_eq!(*nn.get(1, 2, 3).unwrap(), 42);

    // Out-of-bounds
    assert!(nn.get(2, 0, 0).is_none());
    assert!(nn.get(0, 3, 0).is_none());
    assert!(nn.get(0, 0, 4).is_none());
}

#[test]
fn lib_dims_and_indexing() {
    let mut nn = NeuralNetwork::new_with_value(2, 3, 4, 0i32);
    assert_eq!(nn.dims(), (2, 3, 4));
    assert_eq!(nn.len(), 2 * 3 * 4);

    // Write specific coordinates and read back
    *nn.get_mut(1, 2, 3).unwrap() = 42;
    assert_eq!(*nn.get(1, 2, 3).unwrap(), 42);

    // Out-of-bounds
    assert!(nn.get(2, 0, 0).is_none());
    assert!(nn.get(0, 3, 0).is_none());
    assert!(nn.get(0, 0, 4).is_none());
}

#[test]
fn write_then_read_leaves_other_cells() {
    let mut nn = NeuralNetwork::new_with_value(3, 2, 2, 7u8);
    *nn.get_mut(2, 1, 0).unwrap() = 9;
    assert_eq!(*nn.get(2, 1, 0).unwrap(), 9);
    assert_eq!(*nn.get(2, 1, 1).unwrap(), 7);
    assert_eq!(*nn.get(0, 0, 0).unwrap(), 7);
    assert!(nn.get_mut(3, 0, 0).is_none());
}

#[test]
fn empty_grid_and_from_cells() {
    let nn = NeuralNetwork::new_with_value(0, 5, 5, 1i64);
    assert!(nn.is_empty());
    assert_eq!(nn.len(), 0);
    assert!(nn.get(0, 0, 0).is_none());

    let g = NeuralNetwork::from_cells(1, 2, 3, vec![0, 1, 2, 3, 4, 5]).unwrap();
    assert_eq!(*g.get(0, 1, 2).unwrap(), 5);
    assert_eq!(*g.get(0, 1, 0).unwrap(), 3);
    assert!(NeuralNetwork::from_cells(1, 2, 3, vec![0u8; 5]).is_none());
    assert!(NeuralNetwork::from_cells(usize::MAX, 2, 0, Vec::<u8>::new()).is_none());
}

#[test]
fn for_each_visits_in_flat_order() {
    let g = NeuralNetwork::from_cells(2, 2, 2, (0..8).collect::<Vec<i32>>()).unwrap();
    let mut seen = Vec::new();
    g.for_each(|x, y, z, v| seen.push((x, y, z, *v)));
    assert_eq!(seen.len(), 8);
    assert_eq!(seen[0], (0, 0, 0, 0));
    assert_eq!(seen[5], (1, 0, 1, 5));
    assert_eq!(seen[7], (1, 1, 1, 7));

    let mut g = g;
    g.for_each_mut(|x, _y, z, v| *v += (x * 10 + z) as i32);
    assert_eq!(*g.get(1, 1, 1).unwrap(), 7 + 11);
    assert_eq!(g.dims(), (2, 2, 2));
}
