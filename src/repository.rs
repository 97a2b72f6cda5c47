pub mod inmem;
