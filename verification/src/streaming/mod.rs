pub mod yellowstone;
