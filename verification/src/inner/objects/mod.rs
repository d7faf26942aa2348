pub mod inner_net_objects;
